//! Decisions over an InnerTube player response: playability and the choice
//! of an English caption track.
use vstd::prelude::*;

use super::YoutubeError;
use crate::text::{self, starts_with};

verus! {

/// The InnerTube player response fields this library reads.
#[derive(Debug)]
pub struct PlayerResponse {
    pub playability_status: Option<PlayabilityStatus>,
    pub video_details: Option<VideoDetails>,
    pub captions: Option<Captions>,
}

#[derive(Debug)]
pub struct PlayabilityStatus {
    pub status: Option<String>,
    pub reason: Option<String>,
}

#[derive(Debug)]
pub struct VideoDetails {
    pub title: Option<String>,
}

#[derive(Debug)]
pub struct Captions {
    pub player_captions_tracklist_renderer: Option<PlayerCaptionsTracklistRenderer>,
}

#[derive(Debug)]
pub struct PlayerCaptionsTracklistRenderer {
    pub caption_tracks: Vec<CaptionTrack>,
}

#[derive(Debug, Eq, PartialEq)]
pub struct CaptionTrack {
    pub base_url: String,
    pub language_code: String,
    pub kind: Option<String>,
}

impl View for CaptionTrack {
    type V = (Seq<char>, Seq<char>, Option<Seq<char>>);

    open spec fn view(&self) -> Self::V {
        (self.base_url@, self.language_code@, super::url::opt_view(self.kind))
    }
}

pub open spec fn tracks_view(v: Seq<CaptionTrack>) -> Seq<(Seq<char>, Seq<char>, Option<Seq<char>>)> {
    v.map_values(|t: CaptionTrack| t@)
}

fn clone_opt(o: &Option<String>) -> (r: Option<String>)
    ensures
        super::url::opt_view(r) == super::url::opt_view(*o),
{
    match o {
        Some(s) => Some(s.clone()),
        None => None,
    }
}

fn clone_track(t: &CaptionTrack) -> (r: CaptionTrack)
    ensures
        r@ == t@,
{
    CaptionTrack {
        base_url: t.base_url.clone(),
        language_code: t.language_code.clone(),
        kind: clone_opt(&t.kind),
    }
}

impl Clone for CaptionTrack {
    fn clone(&self) -> (r: Self)
        ensures
            r@ == self@,
    {
        clone_track(self)
    }
}

fn clone_tracks(v: &Vec<CaptionTrack>) -> (r: Vec<CaptionTrack>)
    ensures
        tracks_view(r@) == tracks_view(v@),
{
    let mut out: Vec<CaptionTrack> = Vec::new();
    let mut i: usize = 0;
    while i < v.len()
        invariant
            i <= v.len(),
            tracks_view(out@) == tracks_view(v@.take(i as int)),
        decreases v.len() - i,
    {
        let ghost prev = out@;
        let t = clone_track(&v[i]);
        out.push(t);
        proof {
            assert(out@ == prev.push(t));
            assert(tracks_view(prev.push(t)) =~= tracks_view(prev).push(t@));
            assert(tracks_view(v@.take(i + 1)) =~= tracks_view(v@.take(i as int)).push(v@[i as int]@));
        }
        i += 1;
    }
    assert(v@.take(v@.len() as int) =~= v@);
    out
}

pub open spec fn player_tracks(p: PlayerResponse) -> Seq<(Seq<char>, Seq<char>, Option<Seq<char>>)> {
    match p.captions {
        Some(c) => match c.player_captions_tracklist_renderer {
            Some(r) => tracks_view(r.caption_tracks@),
            None => Seq::empty(),
        },
        None => Seq::empty(),
    }
}

impl PlayerResponse {
    /// The caption tracks of the response (empty when captions are absent).
    pub fn caption_tracks(&self) -> (r: Vec<CaptionTrack>)
        ensures
            tracks_view(r@) == player_tracks(*self),
    {
        match &self.captions {
            Some(c) => match &c.player_captions_tracklist_renderer {
                Some(r) => clone_tracks(&r.caption_tracks),
                None => Vec::new(),
            },
            None => Vec::new(),
        }
    }
}

pub open spec fn missing_status_error() -> super::YoutubeErrorView {
    super::YoutubeErrorView::Player("missing playability status"@)
}

/// The verdict on a response's playability.
pub open spec fn playable_spec(p: PlayerResponse) -> Result<(), super::YoutubeErrorView> {
    match p.playability_status {
        None => Err(missing_status_error()),
        Some(st) => match st.status {
            None => Err(missing_status_error()),
            Some(s) => if s@ == "OK"@ {
                Ok(())
            } else {
                match st.reason {
                    Some(r) => Err(super::YoutubeErrorView::Player(r@)),
                    None => Err(
                        super::YoutubeErrorView::Player("playability status is "@ + s@),
                    ),
                }
            },
        },
    }
}

pub open spec fn result_view(r: Result<(), YoutubeError>) -> Result<(), super::YoutubeErrorView> {
    match r {
        Ok(()) => Ok(()),
        Err(e) => Err(e@),
    }
}

/// Accepts a response whose playability status is `OK`; otherwise a player
/// error with the reason the response gives, or one naming the status.
pub fn ensure_playable(player: &PlayerResponse) -> (r: Result<(), YoutubeError>)
    ensures
        result_view(r) == playable_spec(*player),
{
    let status = match &player.playability_status {
        Some(s) => s,
        None => return Err(YoutubeError::Player(text::owned("missing playability status"))),
    };
    match &status.status {
        Some(s) => {
            if text::str_eq(s.as_str(), "OK") {
                Ok(())
            } else {
                match &status.reason {
                    Some(reason) => Err(YoutubeError::Player(reason.clone())),
                    None => {
                        let mut m = text::owned("playability status is ");
                        text::push_str(&mut m, s.as_str());
                        Err(YoutubeError::Player(m))
                    },
                }
            }
        },
        None => Err(YoutubeError::Player(text::owned("missing playability status"))),
    }
}

pub open spec fn english(t: (Seq<char>, Seq<char>, Option<Seq<char>>)) -> bool {
    t.1 == "en"@ || starts_with(t.1, "en-"@)
}

pub open spec fn generated(t: (Seq<char>, Seq<char>, Option<Seq<char>>)) -> bool {
    t.2 == Some("asr"@)
}

/// An English track of the given kind (generated or not) with a caption URL.
pub open spec fn selectable(t: (Seq<char>, Seq<char>, Option<Seq<char>>), gen: bool) -> bool {
    english(t) && generated(t) == gen && t.0.len() > 0
}

/// `i` is the first track that is selectable with the given kind.
pub open spec fn first_selectable(
    ts: Seq<(Seq<char>, Seq<char>, Option<Seq<char>>)>,
    gen: bool,
    i: int,
) -> bool {
    0 <= i < ts.len() && selectable(ts[i], gen) && forall|j: int|
        0 <= j < i ==> !selectable(#[trigger] ts[j], gen)
}

pub open spec fn none_selectable(ts: Seq<(Seq<char>, Seq<char>, Option<Seq<char>>)>, gen: bool) -> bool {
    forall|j: int| 0 <= j < ts.len() ==> !selectable(#[trigger] ts[j], gen)
}

fn is_english(track: &CaptionTrack) -> (r: bool)
    ensures
        r == english(track@),
{
    text::str_eq(track.language_code.as_str(), "en") || text::starts_with_str(
        track.language_code.as_str(),
        "en-",
    )
}

fn is_generated(track: &CaptionTrack) -> (r: bool)
    ensures
        r == generated(track@),
{
    match &track.kind {
        Some(k) => text::str_eq(k.as_str(), "asr"),
        None => false,
    }
}

fn find_selectable(tracks: &[CaptionTrack], gen: bool) -> (r: Option<usize>)
    ensures
        r matches Some(i) ==> first_selectable(tracks_view(tracks@), gen, i as int),
        r is None ==> none_selectable(tracks_view(tracks@), gen),
{
    let ghost ts = tracks_view(tracks@);
    let mut i: usize = 0;
    while i < tracks.len()
        invariant
            i <= tracks.len(),
            ts == tracks_view(tracks@),
            forall|j: int| 0 <= j < i ==> !selectable(#[trigger] ts[j], gen),
        decreases tracks.len() - i,
    {
        let t = &tracks[i];
        assert(ts[i as int] == t@);
        if is_english(t) && is_generated(t) == gen && t.base_url.as_str().unicode_len() > 0 {
            return Some(i);
        }
        i += 1;
    }
    None
}

/// The first English manual track with a caption URL, else the first English
/// generated (`asr`) track with a caption URL; never a non-English track.
pub fn select_english_caption_track(tracks: &[CaptionTrack]) -> (r: Option<CaptionTrack>)
    ensures
        ({
            let ts = tracks_view(tracks@);
            match r {
                Some(t) => (exists|i: int| first_selectable(ts, false, i) && t@ == ts[i]) || (
                none_selectable(ts, false) && exists|i: int|
                    first_selectable(ts, true, i) && t@ == ts[i]),
                None => none_selectable(ts, false) && none_selectable(ts, true),
            }
        }),
{
    match find_selectable(tracks, false) {
        Some(i) => Some(clone_track(&tracks[i])),
        None => match find_selectable(tracks, true) {
            Some(i) => Some(clone_track(&tracks[i])),
            None => None,
        },
    }
}

/// The track [`select_english_caption_track`] picks when there is one.
pub open spec fn chosen_track(
    ts: Seq<(Seq<char>, Seq<char>, Option<Seq<char>>)>,
) -> (Seq<char>, Seq<char>, Option<Seq<char>>) {
    if exists|i: int| first_selectable(ts, false, i) {
        ts[choose|i: int| first_selectable(ts, false, i)]
    } else {
        ts[choose|i: int| first_selectable(ts, true, i)]
    }
}

pub proof fn lemma_first_unique(
    ts: Seq<(Seq<char>, Seq<char>, Option<Seq<char>>)>,
    gen: bool,
    i: int,
    j: int,
)
    requires
        first_selectable(ts, gen, i),
        first_selectable(ts, gen, j),
    ensures
        i == j,
{
    if i < j {
        assert(!selectable(ts[i], gen));
    } else if j < i {
        assert(!selectable(ts[j], gen));
    }
}

pub proof fn lemma_chosen_track(
    ts: Seq<(Seq<char>, Seq<char>, Option<Seq<char>>)>,
    t: (Seq<char>, Seq<char>, Option<Seq<char>>),
)
    requires
        (exists|i: int| first_selectable(ts, false, i) && t == ts[i]) || (none_selectable(ts, false)
            && exists|i: int| first_selectable(ts, true, i) && t == ts[i]),
    ensures
        chosen_track(ts) == t,
        !(none_selectable(ts, false) && none_selectable(ts, true)),
{
    if exists|i: int| first_selectable(ts, false, i) && t == ts[i] {
        let i = choose|i: int| first_selectable(ts, false, i) && t == ts[i];
        let k = choose|k: int| first_selectable(ts, false, k);
        lemma_first_unique(ts, false, i, k);
        assert(!none_selectable(ts, false));
    } else {
        let i = choose|i: int| first_selectable(ts, true, i) && t == ts[i];
        assert(!(exists|k: int| first_selectable(ts, false, k)));
        let k = choose|k: int| first_selectable(ts, true, k);
        lemma_first_unique(ts, true, i, k);
        assert(!none_selectable(ts, true));
    }
}

} // verus!
