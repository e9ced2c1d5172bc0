//! YouTube adapter: URL classification, InnerTube player decisions and
//! transcript XML shaping.
use vstd::prelude::*;

use crate::text;

pub mod innertube;
pub mod transcript;
pub mod url;

pub use url::{classify_url, SupportedYoutubeUrl, YoutubeUrlMatch};

verus! {

/// A transcript collected from a supported YouTube video.
#[derive(Debug)]
pub struct YoutubeTranscriptDocument {
    pub url: String,
    pub title: String,
    pub body_markdown: String,
}

/// Errors of the YouTube adapter.
#[derive(Debug)]
pub enum YoutubeError {
    UnsupportedUrl { url: String, reason: String },
    Network(String),
    Player(String),
    NoEnglishCaptions,
    EmptyTranscript,
    Parse(String),
}

/// The abstract form of a [`YoutubeError`]: a tag and its texts.
pub enum YoutubeErrorView {
    UnsupportedUrl { url: Seq<char>, reason: Seq<char> },
    Network(Seq<char>),
    Player(Seq<char>),
    NoEnglishCaptions,
    EmptyTranscript,
    Parse(Seq<char>),
}

impl View for YoutubeError {
    type V = YoutubeErrorView;

    open spec fn view(&self) -> YoutubeErrorView {
        match self {
            YoutubeError::UnsupportedUrl { url, reason } => YoutubeErrorView::UnsupportedUrl {
                url: url@,
                reason: reason@,
            },
            YoutubeError::Network(m) => YoutubeErrorView::Network(m@),
            YoutubeError::Player(m) => YoutubeErrorView::Player(m@),
            YoutubeError::NoEnglishCaptions => YoutubeErrorView::NoEnglishCaptions,
            YoutubeError::EmptyTranscript => YoutubeErrorView::EmptyTranscript,
            YoutubeError::Parse(m) => YoutubeErrorView::Parse(m@),
        }
    }
}

/// The human-readable text of a YouTube error.
pub open spec fn youtube_error_text(e: YoutubeErrorView) -> Seq<char> {
    match e {
        YoutubeErrorView::UnsupportedUrl { reason, .. } => "unsupported YouTube URL: "@ + reason,
        YoutubeErrorView::Network(m) => "YouTube network error: "@ + m,
        YoutubeErrorView::Player(m) => "YouTube player error: "@ + m,
        YoutubeErrorView::NoEnglishCaptions => "YouTube transcript unavailable: no English captions found"@,
        YoutubeErrorView::EmptyTranscript => "YouTube transcript unavailable: transcript is empty"@,
        YoutubeErrorView::Parse(m) => "YouTube transcript parse error: "@ + m,
    }
}

impl YoutubeError {
    /// The text that `Display` shows for this error.
    pub fn message(&self) -> (r: String)
        ensures
            r@ == youtube_error_text(self@),
    {
        match self {
            YoutubeError::UnsupportedUrl { reason, .. } => {
                let mut s = text::owned("unsupported YouTube URL: ");
                text::push_str(&mut s, reason.as_str());
                s
            },
            YoutubeError::Network(m) => {
                let mut s = text::owned("YouTube network error: ");
                text::push_str(&mut s, m.as_str());
                s
            },
            YoutubeError::Player(m) => {
                let mut s = text::owned("YouTube player error: ");
                text::push_str(&mut s, m.as_str());
                s
            },
            YoutubeError::NoEnglishCaptions => text::owned(
                "YouTube transcript unavailable: no English captions found",
            ),
            YoutubeError::EmptyTranscript => text::owned(
                "YouTube transcript unavailable: transcript is empty",
            ),
            YoutubeError::Parse(m) => {
                let mut s = text::owned("YouTube transcript parse error: ");
                text::push_str(&mut s, m.as_str());
                s
            },
        }
    }
}

/// Typographic quotes that YouTube surfaces in titles, made plain.
pub open spec fn plain_quote(c: char) -> char {
    if c == '\u{2018}' || c == '\u{2019}' {
        '\''
    } else if c == '\u{201c}' || c == '\u{201d}' {
        '"'
    } else {
        c
    }
}

/// The title a transcript document gets: the video's trimmed title when it
/// is not blank, else the video id; typographic quotes made plain.
pub open spec fn title_spec(title: Option<Seq<char>>, video_id: Seq<char>) -> Seq<char> {
    let t = match title {
        Some(t) => if text::trim(t).len() > 0 {
            text::trim(t)
        } else {
            video_id
        },
        None => video_id,
    };
    t.map_values(|c: char| plain_quote(c))
}

pub open spec fn details_title(p: innertube::PlayerResponse) -> Option<Seq<char>> {
    match p.video_details {
        Some(d) => url::opt_view(d.title),
        None => None,
    }
}

fn replace_quotes(v: &[char]) -> (r: String)
    ensures
        r@ == v@.map_values(|c: char| plain_quote(c)),
{
    let mut out = String::new();
    let mut i: usize = 0;
    while i < v.len()
        invariant
            i <= v.len(),
            out@ == v@.take(i as int).map_values(|c: char| plain_quote(c)),
        decreases v.len() - i,
    {
        let c = v[i];
        let d = if c == '\u{2018}' || c == '\u{2019}' {
            '\''
        } else if c == '\u{201c}' || c == '\u{201d}' {
            '"'
        } else {
            c
        };
        text::push(&mut out, d);
        assert(v@.take(i + 1).map_values(|c: char| plain_quote(c)) =~= v@.take(i as int).map_values(
            |c: char| plain_quote(c),
        ).push(plain_quote(c)));
        i += 1;
    }
    assert(v@.take(v@.len() as int) =~= v@);
    out
}

/// The title for a transcript of `supported` given the player response.
pub fn transcript_title(player: &innertube::PlayerResponse, supported: &SupportedYoutubeUrl) -> (r:
    String)
    ensures
        r@ == title_spec(details_title(*player), supported@.0),
{
    let id = text::chars_of(supported.video_id());
    let chosen: Vec<char> = match &player.video_details {
        Some(d) => match &d.title {
            Some(t) => {
                let tv = text::chars_of(t.as_str());
                let trimmed = text::trim_chars(&tv);
                if trimmed.len() > 0 {
                    trimmed
                } else {
                    id
                }
            },
            None => id,
        },
        None => id,
    };
    replace_quotes(&chosen)
}

/// What a collected transcript needs from the player response: the
/// response must be playable and offer an English caption track.
pub open spec fn prepare_spec(
    p: innertube::PlayerResponse,
    video_id: Seq<char>,
) -> Result<(Seq<char>, (Seq<char>, Seq<char>, Option<Seq<char>>)), YoutubeErrorView> {
    match innertube::playable_spec(p) {
        Err(e) => Err(e),
        Ok(()) => {
            let ts = innertube::player_tracks(p);
            if innertube::none_selectable(ts, false) && innertube::none_selectable(ts, true) {
                Err(YoutubeErrorView::NoEnglishCaptions)
            } else {
                Ok((title_spec(details_title(p), video_id), innertube::chosen_track(ts)))
            }
        },
    }
}

/// Checks a fetched player response and picks what the transcript needs:
/// the document title and the English caption track to fetch.
pub fn prepare_transcript(player: &innertube::PlayerResponse, supported: &SupportedYoutubeUrl) -> (r:
    Result<(String, innertube::CaptionTrack), YoutubeError>)
    ensures
        match r {
            Ok((title, track)) => prepare_spec(*player, supported@.0) == Ok::<
                (Seq<char>, (Seq<char>, Seq<char>, Option<Seq<char>>)),
                YoutubeErrorView,
            >((title@, track@)),
            Err(e) => prepare_spec(*player, supported@.0) == Err::<
                (Seq<char>, (Seq<char>, Seq<char>, Option<Seq<char>>)),
                YoutubeErrorView,
            >(e@),
        },
{
    innertube::ensure_playable(player)?;
    let title = transcript_title(player, supported);
    let tracks = player.caption_tracks();
    match innertube::select_english_caption_track(&tracks) {
        Some(track) => {
            proof {
                innertube::lemma_chosen_track(innertube::tracks_view(tracks@), track@);
            }
            Ok((title, track))
        },
        None => Err(YoutubeError::NoEnglishCaptions),
    }
}

/// A fetched caption document is refused when it is blank.
pub fn check_caption_xml(xml: String) -> (r: Result<String, YoutubeError>)
    ensures
        text::is_blank(xml@) ==> (r matches Err(e) && e@ == YoutubeErrorView::EmptyTranscript),
        !text::is_blank(xml@) ==> (r matches Ok(x) && x@ == xml@),
{
    if text::is_blank_str(xml.as_str()) {
        Err(YoutubeError::EmptyTranscript)
    } else {
        Ok(xml)
    }
}

/// The player error for an InnerTube reply with a failing HTTP status.
pub fn player_http_error(status: u16) -> (r: YoutubeError)
    ensures
        r@ == YoutubeErrorView::Player("InnerTube returned HTTP "@ + text::decimal(status as nat)),
{
    let mut m = text::owned("InnerTube returned HTTP ");
    let n = text::usize_to_string(status as usize);
    text::push_str(&mut m, n.as_str());
    YoutubeError::Player(m)
}

/// The network error for a caption fetch with a failing HTTP status.
pub fn caption_http_error(status: u16) -> (r: YoutubeError)
    ensures
        r@ == YoutubeErrorView::Network(
            "caption fetch returned HTTP "@ + text::decimal(status as nat),
        ),
{
    let mut m = text::owned("caption fetch returned HTTP ");
    let n = text::usize_to_string(status as usize);
    text::push_str(&mut m, n.as_str());
    YoutubeError::Network(m)
}

pub open spec fn document_spec(
    url: Seq<char>,
    title: Seq<char>,
    evs: Seq<transcript::XmlEventView>,
) -> Result<(Seq<char>, Seq<char>, Seq<char>), YoutubeErrorView> {
    match transcript::transcript_spec(evs) {
        Ok(body) => Ok((url, title, body)),
        Err(e) => Err(e),
    }
}

/// Assembles the transcript document from the fetched caption XML: the
/// normalized URL, the title, and the transcript of the XML's events.
pub fn finish_transcript(supported: &SupportedYoutubeUrl, title: String, xml: &str) -> (r: Result<
    YoutubeTranscriptDocument,
    YoutubeError,
>)
    ensures
        match r {
            Ok(d) => document_spec(supported@.1, title@, transcript::document_events(xml@)) == Ok::<
                (Seq<char>, Seq<char>, Seq<char>),
                YoutubeErrorView,
            >((d.url@, d.title@, d.body_markdown@)),
            Err(e) => document_spec(supported@.1, title@, transcript::document_events(xml@)) == Err::<
                (Seq<char>, Seq<char>, Seq<char>),
                YoutubeErrorView,
            >(e@),
        },
{
    let body_markdown = transcript::parse_transcript_markdown(xml);
    match body_markdown {
        Ok(body) => Ok(
            YoutubeTranscriptDocument { url: text::owned(supported.normalized_url()), title, body_markdown: body },
        ),
        Err(e) => Err(e),
    }
}

} // verus!
