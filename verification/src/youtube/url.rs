//! Classification of URLs as supported YouTube videos, unsupported YouTube
//! pages, or other URLs.
use vstd::prelude::*;

use crate::text::{self, ascii_lower_seq, starts_with, strip_prefix_all, trim_matches};

verus! {

/// The parts of a parsed URL that classification reads.
#[derive(Clone, Debug)]
pub struct UrlParts {
    pub scheme: String,
    pub host: Option<String>,
    pub path: String,
    /// The decoded query pairs, in order.
    pub query: Vec<(String, String)>,
    /// The URL as the parser serialises it.
    pub serialized: String,
}

pub open spec fn opt_view(o: Option<String>) -> Option<Seq<char>> {
    match o {
        Some(s) => Some(s@),
        None => None,
    }
}

impl View for UrlParts {
    type V = (Seq<char>, Option<Seq<char>>, Seq<char>, Seq<(Seq<char>, Seq<char>)>, Seq<char>);

    open spec fn view(&self) -> Self::V {
        (
            self.scheme@,
            opt_view(self.host),
            self.path@,
            self.query@.map_values(|q: (String, String)| (q.0@, q.1@)),
            self.serialized@,
        )
    }
}

/// What `url::Url::parse` yields for a text, read back as scheme, host,
/// path, decoded query pairs and serialisation (`None` on a parse error).
pub uninterp spec fn url_parse(
    input: Seq<char>,
) -> Option<(Seq<char>, Option<Seq<char>>, Seq<char>, Seq<(Seq<char>, Seq<char>)>, Seq<char>)>;

/// Calls `url::Url::parse` and reads the parsed URL back through `scheme`,
/// `host_str`, `path`, `query_pairs` and `as_str`. The contract says only
/// that the outcome is a function of the input text.
#[verifier::external_body]
pub(crate) fn parse_url(input: &str) -> (r: Option<UrlParts>)
    ensures
        r matches Some(p) ==> url_parse(input@) == Some(p@),
        r is None ==> url_parse(input@) is None,
{
    match ::url::Url::parse(input) {
        Ok(u) => Some(UrlParts {
            scheme: u.scheme().to_string(),
            host: u.host_str().map(|h| h.to_string()),
            path: u.path().to_string(),
            query: u.query_pairs().map(|(k, v)| (k.into_owned(), v.into_owned())).collect(),
            serialized: u.as_str().to_string(),
        }),
        Err(_) => None,
    }
}

// ── video ids ────────────────────────────────────────────────────────────────
pub open spec fn is_id_char(c: char) -> bool {
    ('a' <= c && c <= 'z') || ('A' <= c && c <= 'Z') || ('0' <= c && c <= '9') || c == '_' || c
        == '-'
}

/// The verdict on a candidate video id: the id, or the reason it is refused.
pub open spec fn video_id_check(v: Seq<char>) -> Result<Seq<char>, Seq<char>> {
    if v.len() == 0 {
        Err("video ID is missing"@)
    } else if !(forall|i: int| 0 <= i < v.len() ==> is_id_char(#[trigger] v[i])) {
        Err("video ID contains unsupported characters"@)
    } else if v.len() != 11 {
        Err("video ID must be 11 URL-safe characters"@)
    } else {
        Ok(v)
    }
}

#[derive(Clone, Debug, Eq, PartialEq)]
struct VideoId(String);

impl VideoId {
    fn parse(value: &[char]) -> (r: Result<Self, String>)
        ensures
            r matches Ok(id) ==> video_id_check(value@) == Ok::<Seq<char>, Seq<char>>(id.0@),
            r matches Err(m) ==> video_id_check(value@) == Err::<Seq<char>, Seq<char>>(m@),
    {
        if value.len() == 0 {
            return Err(text::owned("video ID is missing"));
        }
        let mut i: usize = 0;
        while i < value.len()
            invariant
                i <= value.len(),
                forall|k: int| 0 <= k < i ==> is_id_char(#[trigger] value@[k]),
            decreases value.len() - i,
        {
            let c = value[i];
            if !(('a' <= c && c <= 'z') || ('A' <= c && c <= 'Z') || ('0' <= c && c <= '9') || c
                == '_' || c == '-') {
                assert(!is_id_char(value@[i as int]));
                return Err(text::owned("video ID contains unsupported characters"));
            }
            i += 1;
        }
        if value.len() != 11 {
            return Err(text::owned("video ID must be 11 URL-safe characters"));
        }
        Ok(VideoId(text::string_of(value)))
    }

    fn as_str(&self) -> (r: &str)
        ensures
            r@ == self.0@,
    {
        self.0.as_str()
    }
}

/// A YouTube video URL this library collects.
#[derive(Clone, Debug, Eq, PartialEq)]
pub struct SupportedYoutubeUrl {
    video_id: VideoId,
    normalized_url: String,
}

impl View for SupportedYoutubeUrl {
    type V = (Seq<char>, Seq<char>);

    closed spec fn view(&self) -> (Seq<char>, Seq<char>) {
        (self.video_id.0@, self.normalized_url@)
    }
}

impl SupportedYoutubeUrl {
    pub fn video_id(&self) -> (r: &str)
        ensures
            r@ == self@.0,
    {
        self.video_id.as_str()
    }

    pub fn normalized_url(&self) -> (r: &str)
        ensures
            r@ == self@.1,
    {
        self.normalized_url.as_str()
    }
}

/// How a URL relates to YouTube.
#[derive(Clone, Debug, Eq, PartialEq)]
pub enum YoutubeUrlMatch {
    NotYoutube,
    Supported(SupportedYoutubeUrl),
    Unsupported { url: String, reason: String },
}

pub enum UrlMatchView {
    NotYoutube,
    Supported { video_id: Seq<char>, normalized_url: Seq<char> },
    Unsupported { url: Seq<char>, reason: Seq<char> },
}

impl View for YoutubeUrlMatch {
    type V = UrlMatchView;

    open spec fn view(&self) -> UrlMatchView {
        match self {
            YoutubeUrlMatch::NotYoutube => UrlMatchView::NotYoutube,
            YoutubeUrlMatch::Supported(s) => UrlMatchView::Supported {
                video_id: s@.0,
                normalized_url: s@.1,
            },
            YoutubeUrlMatch::Unsupported { url, reason } => UrlMatchView::Unsupported {
                url: url@,
                reason: reason@,
            },
        }
    }
}

// ── classification spec ──────────────────────────────────────────────────────
pub open spec fn youtube_like(h: Seq<char>) -> bool {
    ||| h == "youtube.com"@
    ||| h == "www.youtube.com"@
    ||| h == "m.youtube.com"@
    ||| h == "music.youtube.com"@
    ||| h == "youtu.be"@
    ||| h == "www.youtu.be"@
    ||| h == "youtube-nocookie.com"@
    ||| h == "www.youtube-nocookie.com"@
}

pub open spec fn from_id(id: Seq<char>, url: Seq<char>) -> UrlMatchView {
    match video_id_check(id) {
        Ok(v) => UrlMatchView::Supported { video_id: v, normalized_url: url },
        Err(reason) => UrlMatchView::Unsupported { url, reason },
    }
}

/// The value of the first query pair whose key is `v`.
pub open spec fn first_v(q: Seq<(Seq<char>, Seq<char>)>) -> Option<Seq<char>>
    decreases q.len(),
{
    if q.len() == 0 {
        None
    } else if q[0].0 == "v"@ {
        Some(q[0].1)
    } else {
        first_v(q.drop_first())
    }
}

/// The video id of a watch URL is the value of the first query pair keyed
/// `v`, wherever that pair stands in the query: there is one exactly when
/// some pair has the key `v`, and then it is the value of the first such
/// pair.
pub proof fn lemma_first_v_is_first_v_pair(q: Seq<(Seq<char>, Seq<char>)>)
    ensures
        first_v(q) is Some <==> exists|i: int| 0 <= i < q.len() && (#[trigger] q[i]).0 == "v"@,
        forall|i: int|
            0 <= i < q.len() && (#[trigger] q[i]).0 == "v"@ && (forall|j: int| 0 <= j < i ==> q[j].0 != "v"@)
                ==> first_v(q) == Some(q[i].1),
    decreases q.len(),
{
    if q.len() > 0 {
        let d = q.drop_first();
        lemma_first_v_is_first_v_pair(d);
        if q[0].0 != "v"@ {
            assert forall|i: int| 0 <= i < d.len() && (#[trigger] d[i]).0 == "v"@ implies (0 <= i + 1 < q.len()
                && q[i + 1].0 == "v"@) by {
                assert(d[i] == q[i + 1]);
            }
            assert forall|i: int| 0 <= i < q.len() && (#[trigger] q[i]).0 == "v"@ implies (0 <= i - 1 < d.len()
                && d[i - 1].0 == "v"@) by {
                assert(d[i - 1] == q[i]);
            }
            assert forall|i: int|
                0 <= i < q.len() && (#[trigger] q[i]).0 == "v"@ && (forall|j: int| 0 <= j < i ==> q[j].0 != "v"@)
                    implies first_v(q) == Some(q[i].1) by {
                assert(d[i - 1] == q[i]);
                assert forall|j: int| 0 <= j < i - 1 implies d[j].0 != "v"@ by {
                    assert(d[j] == q[j + 1]);
                }
            }
        } else {
            assert forall|i: int|
                0 <= i < q.len() && (#[trigger] q[i]).0 == "v"@ && (forall|j: int| 0 <= j < i ==> q[j].0 != "v"@)
                    implies first_v(q) == Some(q[i].1) by {
                if i > 0 {
                    assert(q[0].0 != "v"@);
                }
            }
        }
    }
}

pub open spec fn unsupported(url: Seq<char>, reason: Seq<char>) -> UrlMatchView {
    UrlMatchView::Unsupported { url, reason }
}

/// Classification of a path on `youtube.com` or `www.youtube.com`.
pub open spec fn classify_host_path(
    path: Seq<char>,
    query: Seq<(Seq<char>, Seq<char>)>,
    url: Seq<char>,
) -> UrlMatchView {
    if path == "/watch"@ {
        match first_v(query) {
            Some(v) => from_id(v, url),
            None => unsupported(url, "watch URL is missing v parameter"@),
        }
    } else if starts_with(path, "/shorts/"@) {
        from_id(trim_matches(strip_prefix_all(path, "/shorts/"@), '/'), url)
    } else if starts_with(path, "/embed/"@) {
        unsupported(
            url,
            "embed URLs are not collected; collect the containing page or original video URL"@,
        )
    } else if starts_with(path, "/playlist"@) {
        unsupported(url, "playlist collection is out of scope"@)
    } else if starts_with(path, "/channel/"@) || starts_with(path, "/@"@) {
        unsupported(url, "channel collection is out of scope"@)
    } else if starts_with(path, "/results"@) {
        unsupported(url, "search result collection is out of scope"@)
    } else {
        unsupported(url, "not a supported YouTube video URL"@)
    }
}

/// Classification of a parsed URL (`None`: the text did not parse).
pub open spec fn classify_spec(
    p: Option<(Seq<char>, Option<Seq<char>>, Seq<char>, Seq<(Seq<char>, Seq<char>)>, Seq<char>)>,
) -> UrlMatchView {
    match p {
        None => UrlMatchView::NotYoutube,
        Some(u) => {
            let (scheme, host, path, query, url) = u;
            if !(scheme == "http"@ || scheme == "https"@) {
                match host {
                    Some(h) => if youtube_like(ascii_lower_seq(h)) {
                        unsupported(url, "scheme '"@ + scheme + "' is not supported"@)
                    } else {
                        UrlMatchView::NotYoutube
                    },
                    None => UrlMatchView::NotYoutube,
                }
            } else {
                match host {
                    None => UrlMatchView::NotYoutube,
                    Some(h0) => {
                        let h = ascii_lower_seq(h0);
                        if h == "youtu.be"@ {
                            from_id(trim_matches(path, '/'), url)
                        } else if h == "youtube.com"@ || h == "www.youtube.com"@ {
                            classify_host_path(path, query, url)
                        } else if youtube_like(h) {
                            unsupported(url, "host '"@ + h + "' is not supported"@)
                        } else {
                            UrlMatchView::NotYoutube
                        }
                    },
                }
            }
        },
    }
}

// ── classification ───────────────────────────────────────────────────────────
fn is_literal(v: &[char], lit: &str) -> (r: bool)
    ensures
        r == (v@ == lit@),
{
    let l = text::chars_of(lit);
    text::seq_eq(v, &l)
}

fn is_youtube_like_host(h: &[char]) -> (r: bool)
    ensures
        r == youtube_like(h@),
{
    is_literal(h, "youtube.com") || is_literal(h, "www.youtube.com") || is_literal(
        h,
        "m.youtube.com",
    ) || is_literal(h, "music.youtube.com") || is_literal(h, "youtu.be") || is_literal(
        h,
        "www.youtu.be",
    ) || is_literal(h, "youtube-nocookie.com") || is_literal(h, "www.youtube-nocookie.com")
}

fn has_prefix(v: &[char], lit: &str) -> (r: bool)
    ensures
        r == starts_with(v@, lit@),
{
    let l = text::chars_of(lit);
    text::starts_with_chars(v, &l)
}

fn unsupported_match(url: &String, reason: &str) -> (r: YoutubeUrlMatch)
    ensures
        r@ == unsupported(url@, reason@),
{
    YoutubeUrlMatch::Unsupported { url: url.clone(), reason: text::owned(reason) }
}

fn match_from_id(id: &[char], url: &String) -> (r: YoutubeUrlMatch)
    ensures
        r@ == from_id(id@, url@),
{
    match VideoId::parse(id) {
        Ok(video_id) => {
            let s = SupportedYoutubeUrl { video_id, normalized_url: url.clone() };
            YoutubeUrlMatch::Supported(s)
        },
        Err(reason) => YoutubeUrlMatch::Unsupported { url: url.clone(), reason },
    }
}

fn first_v_value(q: &Vec<(String, String)>) -> (r: Option<String>)
    ensures
        opt_view(r) == first_v(q@.map_values(|p: (String, String)| (p.0@, p.1@))),
{
    let ghost views = q@.map_values(|p: (String, String)| (p.0@, p.1@));
    let mut i: usize = 0;
    assert(views.skip(0) =~= views);
    while i < q.len()
        invariant
            i <= q.len(),
            views == q@.map_values(|p: (String, String)| (p.0@, p.1@)),
            first_v(views) == first_v(views.skip(i as int)),
        decreases q.len() - i,
    {
        let key = text::chars_of(q[i].0.as_str());
        assert(views.skip(i as int)[0] == views[i as int]);
        if is_literal(&key, "v") {
            return Some(q[i].1.clone());
        }
        assert(views.skip(i as int).drop_first() =~= views.skip(i + 1));
        i += 1;
    }
    None
}

fn classify_youtube_host(parsed: &UrlParts) -> (r: YoutubeUrlMatch)
    ensures
        r@ == classify_host_path(parsed@.2, parsed@.3, parsed@.4),
{
    let url = &parsed.serialized;
    let path = text::chars_of(parsed.path.as_str());
    if is_literal(&path, "/watch") {
        match first_v_value(&parsed.query) {
            Some(v) => {
                let id = text::chars_of(v.as_str());
                match_from_id(&id, url)
            },
            None => unsupported_match(url, "watch URL is missing v parameter"),
        }
    } else if has_prefix(&path, "/shorts/") {
        let prefix = text::chars_of("/shorts/");
        let stripped = text::strip_prefix_all_chars(&path, &prefix);
        let id = text::trim_matches_char(&stripped, '/');
        match_from_id(&id, url)
    } else if has_prefix(&path, "/embed/") {
        unsupported_match(
            url,
            "embed URLs are not collected; collect the containing page or original video URL",
        )
    } else if has_prefix(&path, "/playlist") {
        unsupported_match(url, "playlist collection is out of scope")
    } else if has_prefix(&path, "/channel/") || has_prefix(&path, "/@") {
        unsupported_match(url, "channel collection is out of scope")
    } else if has_prefix(&path, "/results") {
        unsupported_match(url, "search result collection is out of scope")
    } else {
        unsupported_match(url, "not a supported YouTube video URL")
    }
}

/// Classifies an already parsed URL (`None`: the text did not parse).
pub fn classify_parsed(parsed: Option<UrlParts>) -> (r: YoutubeUrlMatch)
    ensures
        r@ == classify_spec(
            match parsed {
                Some(p) => Some(p@),
                None => None,
            },
        ),
{
    let parsed = match parsed {
        Some(p) => p,
        None => return YoutubeUrlMatch::NotYoutube,
    };
    let scheme = text::chars_of(parsed.scheme.as_str());
    if !(is_literal(&scheme, "http") || is_literal(&scheme, "https")) {
        match &parsed.host {
            Some(h) => {
                let hv = text::chars_of(h.as_str());
                let lower = text::to_ascii_lowercase(&hv);
                if is_youtube_like_host(&lower) {
                    let mut reason = text::owned("scheme '");
                    text::push_str(&mut reason, parsed.scheme.as_str());
                    text::push_str(&mut reason, "' is not supported");
                    return YoutubeUrlMatch::Unsupported { url: parsed.serialized.clone(), reason };
                }
                return YoutubeUrlMatch::NotYoutube;
            },
            None => return YoutubeUrlMatch::NotYoutube,
        }
    }
    let host = match &parsed.host {
        Some(h) => {
            let hv = text::chars_of(h.as_str());
            text::to_ascii_lowercase(&hv)
        },
        None => return YoutubeUrlMatch::NotYoutube,
    };
    if is_literal(&host, "youtu.be") {
        let path = text::chars_of(parsed.path.as_str());
        let id = text::trim_matches_char(&path, '/');
        return match_from_id(&id, &parsed.serialized);
    }
    if is_literal(&host, "youtube.com") || is_literal(&host, "www.youtube.com") {
        return classify_youtube_host(&parsed);
    }
    if is_youtube_like_host(&host) {
        let mut reason = text::owned("host '");
        let host_text = text::string_of(&host);
        text::push_str(&mut reason, host_text.as_str());
        text::push_str(&mut reason, "' is not supported");
        return YoutubeUrlMatch::Unsupported { url: parsed.serialized.clone(), reason };
    }
    YoutubeUrlMatch::NotYoutube
}

/// Classifies a URL text: not YouTube, a supported video, or an unsupported
/// YouTube page with the reason.
pub fn classify_url(input: &str) -> (r: YoutubeUrlMatch)
    ensures
        r@ == classify_spec(url_parse(input@)),
{
    let parsed = parse_url(input);
    classify_parsed(parsed)
}

} // verus!
