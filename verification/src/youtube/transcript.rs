//! Shaping of YouTube timed-text XML into a Markdown transcript body.
//!
//! The XML is read as a stream of events; the decisions over that stream
//! (which elements hold text, how text is decoded and cleaned, when the
//! transcript counts as empty) are proved against [`transcript_spec`].
use vstd::prelude::*;
use quick_xml::events::Event;
use vstd::utf8::{decode_utf8, encode_utf8, valid_utf8};

use super::{YoutubeError, YoutubeErrorView};
use crate::text::{self, is_blank, join, words};

verus! {

// ── outside calls ────────────────────────────────────────────────────────────
#[verifier::external_type_specification]
#[verifier::external_body]
#[verifier::reject_recursive_types(R)]
pub struct ExXmlReader<R>(quick_xml::Reader<R>);

/// One XML event, with the bytes the decisions read.
#[derive(Debug)]
pub enum XmlEvent {
    /// A start tag and its qualified name.
    Start(Vec<u8>),
    /// An end tag and its qualified name.
    End(Vec<u8>),
    /// Escaped text content.
    Text(Vec<u8>),
    /// A CDATA section's content.
    CData(Vec<u8>),
    Eof,
    /// A reader error and its message.
    Error(String),
    /// Any other event (comments, declarations, empty tags, ...).
    Other,
}

pub enum XmlEventView {
    Start(Seq<u8>),
    End(Seq<u8>),
    Text(Seq<u8>),
    CData(Seq<u8>),
    Eof,
    Error(Seq<char>),
    Other,
}

impl View for XmlEvent {
    type V = XmlEventView;

    open spec fn view(&self) -> XmlEventView {
        match self {
            XmlEvent::Start(n) => XmlEventView::Start(n@),
            XmlEvent::End(n) => XmlEventView::End(n@),
            XmlEvent::Text(b) => XmlEventView::Text(b@),
            XmlEvent::CData(b) => XmlEventView::CData(b@),
            XmlEvent::Eof => XmlEventView::Eof,
            XmlEvent::Error(m) => XmlEventView::Error(m@),
            XmlEvent::Other => XmlEventView::Other,
        }
    }
}

/// The `k`-th event (from 0) that a quick-xml reader made by
/// `Reader::from_str` over the text yields, with text trimming off: a
/// function of the text and `k` alone.
pub uninterp spec fn xml_event(xml: Seq<char>, k: nat) -> XmlEventView;

/// A quick-xml reader over a document, with the document's text and the
/// number of events read from it so far. Only [`xml_reader`] makes one.
pub struct XmlStream<'a> {
    reader: quick_xml::Reader<&'a [u8]>,
    text: Ghost<Seq<char>>,
    read: Ghost<nat>,
}

impl<'a> XmlStream<'a> {
    pub closed spec fn text(&self) -> Seq<char> {
        self.text@
    }

    pub closed spec fn read(&self) -> nat {
        self.read@
    }
}

/// Calls `quick_xml::Reader::from_str` over the text; no event is read yet.
#[verifier::external_body]
fn xml_reader<'a>(xml: &'a str) -> (r: XmlStream<'a>)
    ensures
        r.text() == xml@,
        r.read() == 0,
{
    XmlStream { reader: quick_xml::Reader::from_str(xml), text: Ghost(xml@), read: Ghost(0) }
}

/// Calls `Config::trim_text(false)` on the reader's configuration, so text
/// events keep their surrounding whitespace. Trimming is off by default
/// (`Config::default`), so the events the reader yields stay the same.
#[verifier::external_body]
fn keep_text_whitespace(stream: &mut XmlStream)
    ensures
        final(stream).text() == old(stream).text(),
        final(stream).read() == old(stream).read(),
{
    stream.reader.config_mut().trim_text(false);
}

/// Calls `Reader::read_event` and keeps what the decisions read of the
/// event: the next event of the document's sequence.
#[verifier::external_body]
fn next_event(stream: &mut XmlStream) -> (r: XmlEvent)
    ensures
        r@ == xml_event(old(stream).text(), old(stream).read()),
        final(stream).text() == old(stream).text(),
        final(stream).read() == old(stream).read() + 1,
{
    let ev = match stream.reader.read_event() {
        Ok(Event::Start(e)) => XmlEvent::Start(e.name().as_ref().to_vec()),
        Ok(Event::End(e)) => XmlEvent::End(e.name().as_ref().to_vec()),
        Ok(Event::Text(t)) => XmlEvent::Text(t.into_inner().into_owned()),
        Ok(Event::CData(t)) => XmlEvent::CData(t.into_inner().into_owned()),
        Ok(Event::Eof) => XmlEvent::Eof,
        Err(e) => XmlEvent::Error(e.to_string()),
        Ok(_) => XmlEvent::Other,
    };
    stream.read = Ghost(stream.read@ + 1);
    ev
}

/// Calls `std::str::from_utf8`: `Some` exactly for valid UTF-8, holding the
/// decoded characters.
#[verifier::external_body]
fn utf8_decode(bytes: &[u8]) -> (r: Option<String>)
    ensures
        r is Some <==> valid_utf8(bytes@),
        r matches Some(s) ==> s@ == decode_utf8(bytes@),
{
    std::str::from_utf8(bytes).ok().map(|s| s.to_string())
}

/// What `String::from_utf8_lossy` returns for a byte sequence.
pub uninterp spec fn utf8_lossy(bytes: Seq<u8>) -> Seq<char>;

/// Calls `String::from_utf8_lossy`: valid UTF-8 decodes unchanged; the
/// replacement of invalid sequences is only named.
#[verifier::external_body]
fn utf8_decode_lossy(bytes: &[u8]) -> (r: String)
    ensures
        r@ == utf8_lossy(bytes@),
        valid_utf8(bytes@) ==> r@ == decode_utf8(bytes@),
{
    String::from_utf8_lossy(bytes).into_owned()
}

/// What `quick_xml::escape::unescape` returns: the text with XML entity and
/// character references replaced, or the error's message.
pub uninterp spec fn xml_unescape(s: Seq<char>) -> Result<Seq<char>, Seq<char>>;

/// A text with no `&`, so with no reference to replace.
pub open spec fn no_reference(s: Seq<char>) -> bool {
    !s.contains('&')
}

/// Calls `quick_xml::escape::unescape`. Its source replaces each `&...;`
/// reference (three characters or more) by one character, so the result is
/// never longer, and strictly shorter when anything changed; a text with no
/// `&` comes back as it is.
#[verifier::external_body]
fn unescape(s: &str) -> (r: Result<String, String>)
    ensures
        r matches Ok(d) ==> xml_unescape(s@) == text::ok_text(d@) && d@.len() <= s@.len() && (d@ != s@
            ==> d@.len() < s@.len()) && (no_reference(s@) ==> d@ == s@),
        r matches Err(m) ==> xml_unescape(s@) == text::err_text(m@),
        r is Err ==> !no_reference(s@),
{
    match quick_xml::escape::unescape(s) {
        Ok(d) => Ok(d.into_owned()),
        Err(e) => Err(e.to_string()),
    }
}

// ── text cleaning ────────────────────────────────────────────────────────────
/// Unescapes repeatedly until the text stops changing or unescaping fails.
pub open spec fn unescape_fix(s: Seq<char>) -> Seq<char>
    decreases s.len(),
{
    match xml_unescape(s) {
        Ok(d) => if d != s && d.len() < s.len() {
            unescape_fix(d)
        } else {
            s
        },
        Err(_) => s,
    }
}

/// A segment's text after entity decoding and whitespace normalisation.
pub open spec fn clean_spec(s: Seq<char>) -> Seq<char> {
    join(words(unescape_fix(s)), seq![' '])
}

fn clean_text(input: &str) -> (r: String)
    ensures
        r@ == clean_spec(input@),
{
    let mut current = text::owned(input);
    loop
        invariant
            unescape_fix(input@) == unescape_fix(current@),
        ensures
            unescape_fix(input@) == current@,
        decreases current@.len(),
    {
        match unescape(current.as_str()) {
            Ok(decoded) => {
                if text::str_eq(decoded.as_str(), current.as_str()) {
                    break;
                }
                current = decoded;
            },
            Err(_) => break,
        }
    }
    normalize_whitespace(current.as_str())
}

/// `input.split_whitespace().collect::<Vec<_>>().join(" ")`.
pub fn normalize_whitespace(input: &str) -> (r: String)
    ensures
        r@ == join(words(input@), seq![' ']),
{
    let v = text::chars_of(input);
    let n = text::normalize_whitespace_chars(&v);
    text::string_of(&n)
}

// ── the event machine ────────────────────────────────────────────────────────
/// Reading state: inside `<p>`/`<text>`, which of them were seen, the text of
/// the open element and the segments collected so far.
pub struct SegState {
    pub in_p: bool,
    pub in_text: bool,
    pub saw_p: bool,
    pub saw_text: bool,
    pub current: Seq<char>,
    pub segments: Seq<Seq<char>>,
}

pub open spec fn initial_state() -> SegState {
    SegState {
        in_p: false,
        in_text: false,
        saw_p: false,
        saw_text: false,
        current: Seq::empty(),
        segments: Seq::empty(),
    }
}

/// Closing an element: its cleaned text becomes a segment unless empty.
pub open spec fn push_segment(segments: Seq<Seq<char>>, current: Seq<char>) -> Seq<Seq<char>> {
    let cleaned = clean_spec(current);
    if cleaned.len() == 0 {
        segments
    } else {
        segments.push(cleaned)
    }
}

pub open spec fn is_p(n: Seq<u8>) -> bool {
    n == seq![112u8]
}

pub open spec fn is_text(n: Seq<u8>) -> bool {
    n == seq![116u8, 101u8, 120u8, 116u8]
}

/// Decoding of a text event's bytes: UTF-8, then entity unescaping.
pub open spec fn decode_text(b: Seq<u8>) -> Result<Seq<char>, Seq<char>> {
    if valid_utf8(b) {
        xml_unescape(decode_utf8(b))
    } else {
        Err("invalid UTF-8 in transcript text"@)
    }
}

/// Decoding of a CDATA section: lossy UTF-8, then entity unescaping.
pub open spec fn decode_cdata(b: Seq<u8>) -> Result<Seq<char>, Seq<char>> {
    xml_unescape(utf8_lossy(b))
}

/// One step of the machine: the next state, or the parse error's message.
pub open spec fn step(st: SegState, ev: XmlEventView) -> Result<SegState, Seq<char>> {
    match ev {
        XmlEventView::Start(n) => if is_p(n) {
            Ok(SegState { in_p: true, saw_p: true, current: Seq::empty(), ..st })
        } else if is_text(n) {
            Ok(SegState { in_text: true, saw_text: true, current: Seq::empty(), ..st })
        } else {
            Ok(st)
        },
        XmlEventView::Text(b) => if st.in_p || st.in_text {
            match decode_text(b) {
                Ok(d) => Ok(SegState { current: st.current + d, ..st }),
                Err(m) => Err(m),
            }
        } else {
            Ok(st)
        },
        XmlEventView::CData(b) => if st.in_p || st.in_text {
            match decode_cdata(b) {
                Ok(d) => Ok(SegState { current: st.current + d, ..st }),
                Err(m) => Err(m),
            }
        } else {
            Ok(st)
        },
        XmlEventView::End(n) => if is_p(n) && st.in_p {
            Ok(
                SegState {
                    in_p: false,
                    current: Seq::empty(),
                    segments: push_segment(st.segments, st.current),
                    ..st
                },
            )
        } else if is_text(n) && st.in_text {
            Ok(
                SegState {
                    in_text: false,
                    current: Seq::empty(),
                    segments: push_segment(st.segments, st.current),
                    ..st
                },
            )
        } else {
            Ok(st)
        },
        XmlEventView::Error(m) => Err(m),
        _ => Ok(st),
    }
}

/// Runs the machine over the events up to the first end-of-input event (or
/// the end of the sequence).
pub open spec fn run(evs: Seq<XmlEventView>, st: SegState) -> Result<SegState, Seq<char>>
    decreases evs.len(),
{
    if evs.len() == 0 {
        Ok(st)
    } else {
        match evs[0] {
            XmlEventView::Eof => Ok(st),
            _ => match step(st, evs[0]) {
                Ok(next) => run(evs.drop_first(), next),
                Err(m) => Err(m),
            },
        }
    }
}

/// The segments of a timed-text document, or why there are none.
pub open spec fn segments_spec(evs: Seq<XmlEventView>) -> Result<Seq<Seq<char>>, YoutubeErrorView> {
    match run(evs, initial_state()) {
        Err(m) => Err(YoutubeErrorView::Parse(m)),
        Ok(st) => if !st.saw_p && !st.saw_text {
            Err(YoutubeErrorView::EmptyTranscript)
        } else {
            Ok(st.segments)
        },
    }
}

/// The non-empty cleaned segments, in order.
pub open spec fn kept_segments(segs: Seq<Seq<char>>) -> Seq<Seq<char>>
    decreases segs.len(),
{
    if segs.len() == 0 {
        Seq::empty()
    } else {
        let rest = kept_segments(segs.drop_last());
        let c = clean_spec(segs.last());
        if c.len() == 0 {
            rest
        } else {
            rest.push(c)
        }
    }
}

/// The transcript body: segments separated by blank lines; a blank body is
/// an empty transcript.
pub open spec fn transcript_spec(evs: Seq<XmlEventView>) -> Result<Seq<char>, YoutubeErrorView> {
    match segments_spec(evs) {
        Err(e) => Err(e),
        Ok(segs) => {
            let body = join(kept_segments(segs), seq!['\n', '\n']);
            if is_blank(body) {
                Err(YoutubeErrorView::EmptyTranscript)
            } else {
                Ok(body)
            }
        },
    }
}

pub open spec fn string_result_view(r: Result<String, YoutubeError>) -> Result<Seq<char>, YoutubeErrorView> {
    match r {
        Ok(s) => Ok(s@),
        Err(e) => Err(e@),
    }
}

pub open spec fn events_view(evs: Seq<XmlEvent>) -> Seq<XmlEventView> {
    evs.map_values(|e: XmlEvent| e@)
}

// ── executable machine ───────────────────────────────────────────────────────
struct Machine {
    in_p: bool,
    in_text: bool,
    saw_p: bool,
    saw_text: bool,
    current: String,
    segments: Vec<String>,
}

impl View for Machine {
    type V = SegState;

    closed spec fn view(&self) -> SegState {
        SegState {
            in_p: self.in_p,
            in_text: self.in_text,
            saw_p: self.saw_p,
            saw_text: self.saw_text,
            current: self.current@,
            segments: self.segments@.map_values(|s: String| s@),
        }
    }
}

fn is_name(n: &[u8], lit: &[u8]) -> (r: bool)
    ensures
        r == (n@ == lit@),
{
    if n.len() != lit.len() {
        return false;
    }
    let mut i: usize = 0;
    while i < n.len()
        invariant
            i <= n.len(),
            n.len() == lit.len(),
            forall|k: int| 0 <= k < i ==> n@[k] == lit@[k],
        decreases n.len() - i,
    {
        if n[i] != lit[i] {
            return false;
        }
        i += 1;
    }
    assert(n@ =~= lit@);
    true
}

fn is_p_name(n: &[u8]) -> (r: bool)
    ensures
        r == is_p(n@),
{
    let lit: [u8; 1] = [112u8];
    let r = is_name(n, &lit);
    assert(lit@ =~= seq![112u8]);
    r
}

fn is_text_name(n: &[u8]) -> (r: bool)
    ensures
        r == is_text(n@),
{
    let lit: [u8; 4] = [116u8, 101u8, 120u8, 116u8];
    let r = is_name(n, &lit);
    assert(lit@ =~= seq![116u8, 101u8, 120u8, 116u8]);
    r
}

/// Closes the open element: its cleaned text becomes a segment unless empty.
fn push_current(segments: &mut Vec<String>, current: &mut String)
    ensures
        final(segments)@.map_values(|s: String| s@) == push_segment(
            old(segments)@.map_values(|s: String| s@),
            old(current)@,
        ),
        final(current)@ == Seq::<char>::empty(),
{
    let cleaned = clean_text(current.as_str());
    let ghost before = segments@;
    if !text::is_blank_str(cleaned.as_str()) || cleaned.as_str().unicode_len() > 0 {
        if cleaned.as_str().unicode_len() > 0 {
            segments.push(cleaned);
            assert(segments@.map_values(|s: String| s@) =~= before.map_values(|s: String| s@).push(
                clean_spec(old(current)@),
            ));
        }
    }
    *current = String::new();
}

fn decode_text_event(b: &[u8]) -> (r: Result<String, String>)
    ensures
        r matches Ok(d) ==> decode_text(b@) == Ok::<Seq<char>, Seq<char>>(d@),
        r matches Err(m) ==> decode_text(b@) == Err::<Seq<char>, Seq<char>>(m@),
{
    match utf8_decode(b) {
        Some(s) => unescape(s.as_str()),
        None => Err(text::owned("invalid UTF-8 in transcript text")),
    }
}

fn decode_cdata_event(b: &[u8]) -> (r: Result<String, String>)
    ensures
        r matches Ok(d) ==> decode_cdata(b@) == Ok::<Seq<char>, Seq<char>>(d@),
        r matches Err(m) ==> decode_cdata(b@) == Err::<Seq<char>, Seq<char>>(m@),
{
    let raw = utf8_decode_lossy(b);
    unescape(raw.as_str())
}

impl Machine {
    fn step(&mut self, ev: &XmlEvent) -> (r: Result<(), String>)
        ensures
            r matches Ok(()) ==> step(old(self)@, ev@) == Ok::<SegState, Seq<char>>(final(self)@),
            r matches Err(m) ==> step(old(self)@, ev@) == Err::<SegState, Seq<char>>(m@),
    {
        match ev {
            XmlEvent::Start(n) => {
                if is_p_name(n) {
                    self.in_p = true;
                    self.saw_p = true;
                    self.current = String::new();
                } else if is_text_name(n) {
                    self.in_text = true;
                    self.saw_text = true;
                    self.current = String::new();
                }
                Ok(())
            },
            XmlEvent::Text(b) => {
                if self.in_p || self.in_text {
                    match decode_text_event(b) {
                        Ok(d) => {
                            text::push_str(&mut self.current, d.as_str());
                            Ok(())
                        },
                        Err(m) => Err(m),
                    }
                } else {
                    Ok(())
                }
            },
            XmlEvent::CData(b) => {
                if self.in_p || self.in_text {
                    match decode_cdata_event(b) {
                        Ok(d) => {
                            text::push_str(&mut self.current, d.as_str());
                            Ok(())
                        },
                        Err(m) => Err(m),
                    }
                } else {
                    Ok(())
                }
            },
            XmlEvent::End(n) => {
                if is_p_name(n) && self.in_p {
                    push_current(&mut self.segments, &mut self.current);
                    self.in_p = false;
                } else if is_text_name(n) && self.in_text {
                    push_current(&mut self.segments, &mut self.current);
                    self.in_text = false;
                }
                Ok(())
            },
            XmlEvent::Error(m) => Err(m.clone()),
            _ => Ok(()),
        }
    }
}

/// The segments of a timed-text document read as the given event sequence.
pub fn segments_from_events(events: &Vec<XmlEvent>) -> (r: Result<Vec<String>, YoutubeError>)
    ensures
        match r {
            Ok(v) => segments_spec(events_view(events@)) == Ok::<
                Seq<Seq<char>>,
                YoutubeErrorView,
            >(v@.map_values(|s: String| s@)),
            Err(e) => segments_spec(events_view(events@)) == Err::<Seq<Seq<char>>, YoutubeErrorView>(
                e@,
            ),
        },
{
    let ghost evs = events_view(events@);
    let mut m = Machine {
        in_p: false,
        in_text: false,
        saw_p: false,
        saw_text: false,
        current: String::new(),
        segments: Vec::new(),
    };
    assert(m@.segments =~= Seq::<Seq<char>>::empty());
    assert(m@ == initial_state());
    let mut i: usize = 0;
    assert(evs.skip(0) =~= evs);
    while i < events.len()
        invariant
            i <= events.len(),
            evs == events_view(events@),
            run(evs, initial_state()) == run(evs.skip(i as int), m@),
        ensures
            run(evs, initial_state()) == Ok::<SegState, Seq<char>>(m@),
        decreases events.len() - i,
    {
        let ghost rest = evs.skip(i as int);
        assert(rest[0] == events@[i as int]@);
        assert(rest.drop_first() =~= evs.skip(i + 1));
        if let XmlEvent::Eof = &events[i] {
            break;
        }
        match m.step(&events[i]) {
            Ok(()) => {},
            Err(msg) => return Err(YoutubeError::Parse(msg)),
        }
        i += 1;
    }
    if !m.saw_p && !m.saw_text {
        return Err(YoutubeError::EmptyTranscript);
    }
    Ok(m.segments)
}

/// The transcript body for a timed-text document read as the given events.
pub fn transcript_from_events(events: &Vec<XmlEvent>) -> (r: Result<String, YoutubeError>)
    ensures
        string_result_view(r) == transcript_spec(events_view(events@)),
{
    let segments = segments_from_events(events)?;
    let ghost segs = segments@.map_values(|s: String| s@);
    let mut kept: Vec<Vec<char>> = Vec::new();
    let mut i: usize = 0;
    assert(segs.take(0) =~= Seq::<Seq<char>>::empty());
    while i < segments.len()
        invariant
            i <= segments.len(),
            segs == segments@.map_values(|s: String| s@),
            kept@.map_values(|w: Vec<char>| w@) == kept_segments(segs.take(i as int)),
        decreases segments.len() - i,
    {
        let c = clean_text(segments[i].as_str());
        let cv = text::chars_of(c.as_str());
        assert(segs.take(i + 1).drop_last() =~= segs.take(i as int));
        assert(segs.take(i + 1).last() == segments@[i as int]@);
        if cv.len() > 0 {
            let ghost before = kept@;
            kept.push(cv);
            assert(kept@.map_values(|w: Vec<char>| w@) =~= before.map_values(|w: Vec<char>| w@).push(
                cv@,
            ));
        }
        i += 1;
    }
    assert(segs.take(segs.len() as int) =~= segs);
    let sep: Vec<char> = vec!['\n', '\n'];
    assert(sep@ =~= seq!['\n', '\n']);
    let body = text::join_chars(&kept, &sep);
    let body = text::string_of(&body);
    if text::is_blank_str(body.as_str()) {
        return Err(YoutubeError::EmptyTranscript);
    }
    Ok(body)
}

/// An event after which the reader is not asked again: the end of input,
/// or an error.
pub open spec fn ends_reading(e: XmlEventView) -> bool {
    e is Eof || e is Error
}

/// The events read from the `k`-th on: up to and including the first that
/// ends the reading, and at most `fuel` more after the `k`-th.
pub open spec fn events_from(xml: Seq<char>, k: nat, fuel: nat) -> Seq<XmlEventView>
    decreases fuel,
{
    let e = xml_event(xml, k);
    if ends_reading(e) || fuel == 0 {
        seq![e]
    } else {
        seq![e] + events_from(xml, k + 1, (fuel - 1) as nat)
    }
}

/// The events read from a document: the reader is asked for at most one
/// event per input byte plus the end of input, which is enough for any
/// document since every other event consumes input.
pub open spec fn document_events(xml: Seq<char>) -> Seq<XmlEventView> {
    events_from(xml, 0, encode_utf8(xml).len())
}

/// One step of `events_from`: an event that does not end the reading,
/// then the events after it.
proof fn lemma_events_from_step(xml: Seq<char>, k: nat, fuel: nat)
    requires
        !ends_reading(xml_event(xml, k)),
        fuel > 0,
    ensures
        events_from(xml, k, fuel) == seq![xml_event(xml, k)] + events_from(xml, k + 1, (fuel - 1) as nat),
{
}

/// Reads the events of a timed-text document, as [`document_events`] says.
fn read_events(xml: &str) -> (r: Vec<XmlEvent>)
    ensures
        events_view(r@) == document_events(xml@),
{
    let mut stream = xml_reader(xml);
    keep_text_whitespace(&mut stream);
    let bytes = xml.as_bytes();
    let limit = bytes.len();
    assert(limit == encode_utf8(xml@).len());
    let mut events: Vec<XmlEvent> = Vec::new();
    let mut count: usize = 0;
    loop
        invariant_except_break
            count <= limit,
            limit == encode_utf8(xml@).len(),
            stream.text() == xml@,
            stream.read() == count,
            events@.len() == count,
            events_view(events@) + events_from(xml@, count as nat, (limit - count) as nat) == document_events(
                xml@,
            ),
        ensures
            events_view(events@) == document_events(xml@),
        decreases limit - count,
    {
        let ghost before = events@;
        let ev = next_event(&mut stream);
        let stop = match &ev {
            XmlEvent::Eof => true,
            XmlEvent::Error(_) => true,
            _ => false,
        };
        assert(stop == ends_reading(ev@));
        events.push(ev);
        assert(events_view(events@) =~= events_view(before).push(ev@));
        if stop || count == limit {
            assert(events_from(xml@, count as nat, (limit - count) as nat) == seq![ev@]);
            assert(events_view(events@) =~= events_view(before) + seq![ev@]);
            break;
        }
        proof {
            lemma_events_from_step(xml@, count as nat, (limit - count) as nat);
            assert(events_view(before) + events_from(xml@, count as nat, (limit - count) as nat) =~= events_view(
                events@,
            ) + events_from(xml@, (count + 1) as nat, (limit - count - 1) as nat));
        }
        count += 1;
    }
    events
}

/// Shapes a timed-text XML document into Markdown: one paragraph per
/// non-empty caption segment, the whole the transcript of the document's
/// XML events.
pub fn parse_transcript_markdown(xml: &str) -> (r: Result<String, YoutubeError>)
    ensures
        string_result_view(r) == transcript_spec(document_events(xml@)),
{
    let events = read_events(xml);
    transcript_from_events(&events)
}

} // verus!
