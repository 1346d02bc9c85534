use vstd::prelude::*;
use vstd::utf8::{decode_utf8, valid_utf8};
use quick_xml::events::Event;
use quick_xml::Reader;
use crate::events::{Attribute, EventKind, XmlEvent, XmlEventModel};
use crate::parser::{parse_spec, Host, HostModel, ParseError, Parser};

verus! {

/// A quick_xml reader over a document held in memory, with the buffer its
/// events are read into. Verus refuses to declare `quick_xml::Reader` itself,
/// whose parameter is bound by `std::io::BufRead`, so the reader is kept in a
/// private field.
#[verifier::external_body]
struct RawReader<'a> {
    reader: Reader<&'a [u8]>,
    buf: Vec<u8>,
}

/// A reader over a document, with the document and the number of events
/// read so far.
pub struct XmlSource<'a> {
    raw: RawReader<'a>,
    doc: Ghost<Seq<u8>>,
    count: Ghost<nat>,
}

impl<'a> XmlSource<'a> {
    /// The document being read.
    pub closed spec fn document(&self) -> Seq<u8> {
        self.doc@
    }

    /// How many events have been read.
    pub closed spec fn position(&self) -> nat {
        self.count@
    }
}

#[verifier::external_type_specification]
#[verifier::external_body]
pub struct ExXmlError(quick_xml::Error);

/// What a markup event is, as far as the report's schema cares.
#[derive(Debug, Clone, Copy, PartialEq, Eq, Structural)]
pub enum RawKind {
    Start,
    End,
    Empty,
    Eof,
    Other,
}

/// An event as quick_xml reads it: its kind, the element's local name, and
/// each attribute's key and raw value (names are empty for other events).
pub type RawEvent = (RawKind, Vec<u8>, Vec<(Vec<u8>, Vec<u8>)>);

/// The `n`th event (from 0) that a fresh quick_xml reader yields on the
/// document, as its kind, local name and raw attributes; `None` where reading
/// it fails.
pub uninterp spec fn markup_event(doc: Seq<u8>, n: nat) -> Option<(RawKind, Seq<u8>, Seq<(Seq<u8>, Seq<u8>)>)>;

/// The plain value of a read event.
pub open spec fn raw_model(e: RawEvent) -> (RawKind, Seq<u8>, Seq<(Seq<u8>, Seq<u8>)>) {
    (e.0, e.1@, e.2@.map_values(|p: (Vec<u8>, Vec<u8>)| (p.0@, p.1@)))
}

/// Why a report could not be read.
#[derive(Debug, Clone, Copy, PartialEq, Eq, Structural)]
pub enum ReportError {
    /// The document is not well-formed markup, or not UTF-8 where a name or
    /// value is read.
    InvalidMarkup,
    /// A record of the report is malformed.
    Malformed(ParseError),
}

/// Relies on quick_xml::Reader::from_reader: a reader at the start of the
/// document.
#[verifier::external_body]
fn open_reader<'a>(doc: &'a [u8]) -> (r: RawReader<'a>) {
    RawReader { reader: Reader::from_reader(doc), buf: Vec::new() }
}

impl<'a> XmlSource<'a> {
    /// A reader at the start of the document.
    pub fn new(doc: &'a [u8]) -> (r: XmlSource<'a>)
        ensures
            r.document() == doc@,
            r.position() == 0,
    {
        XmlSource { raw: open_reader(doc), doc: Ghost(doc@), count: Ghost(0) }
    }
}

/// Relies on quick_xml::Reader::read_event, BytesStart::attributes and the
/// local_name of start and end tags: the next event of the document, which
/// depends on the document and on how many events were read before.
#[verifier::external_body]
fn read_raw(source: &mut XmlSource) -> (r: Result<RawEvent, quick_xml::Error>)
    ensures
        final(source).document() == old(source).document(),
        final(source).position() == old(source).position() + 1,
        r is Err <==> markup_event(old(source).document(), old(source).position()) is None,
        r is Ok ==> markup_event(old(source).document(), old(source).position()) == Some(raw_model(r->Ok_0)),
{
    let (kind, t) = match source.raw.reader.read_event(&mut source.raw.buf)? {
        Event::Start(t) => (RawKind::Start, t),
        Event::Empty(t) => (RawKind::Empty, t),
        Event::End(t) => return Ok((RawKind::End, t.local_name().into(), vec![])),
        Event::Eof => return Ok((RawKind::Eof, vec![], vec![])),
        _ => return Ok((RawKind::Other, vec![], vec![])),
    };
    Ok((kind, t.local_name().into(), Result::from_iter(t.attributes().map(|a| a.map(|a| (a.key.into(), a.value.into()))))?))
}

/// Relies on String::from_utf8: it succeeds exactly on valid UTF-8 and then
/// holds the characters that the bytes encode.
#[verifier::external_body]
fn utf8_text(b: Vec<u8>) -> (r: Option<String>)
    ensures
        r is Some <==> valid_utf8(b@),
        r is Some ==> r->Some_0@ == decode_utf8(b@),
{
    String::from_utf8(b).ok()
}

fn markup_error(e: quick_xml::Error) -> (r: ReportError)
    ensures
        r == ReportError::InvalidMarkup,
{
    ReportError::InvalidMarkup
}

/// Every name and value of an element is valid UTF-8.
pub open spec fn decodable(name: Seq<u8>, attrs: Seq<(Seq<u8>, Seq<u8>)>) -> bool {
    valid_utf8(name) && forall|j: int| 0 <= j < attrs.len() ==>
        valid_utf8((#[trigger] attrs[j]).0) && valid_utf8(attrs[j].1)
}

/// The parser's event for an element read from the document.
pub open spec fn decoded(kind: EventKind, name: Seq<u8>, attrs: Seq<(Seq<u8>, Seq<u8>)>) -> XmlEventModel {
    XmlEventModel {
        kind,
        name: decode_utf8(name),
        attributes: attrs.map_values(|p: (Seq<u8>, Seq<u8>)| (decode_utf8(p.0), decode_utf8(p.1))),
    }
}

/// The element kind of a read event, if it is an element.
pub open spec fn element_kind(kind: RawKind) -> Option<EventKind> {
    match kind {
        RawKind::Start => Some(EventKind::Start),
        RawKind::End => Some(EventKind::End),
        RawKind::Empty => Some(EventKind::Empty),
        _ => None,
    }
}

/// `p` put before the sequence, if there is one.
pub open spec fn prepend(p: Seq<XmlEventModel>, o: Option<Seq<XmlEventModel>>) -> Option<Seq<XmlEventModel>> {
    match o {
        Some(s) => Some(p + s),
        None => None,
    }
}

/// The element events of the document from its `n`th event on, reading at
/// most `fuel` more events before its end; `None` when reading fails, a name
/// or value is not UTF-8, or the fuel runs out.
pub open spec fn scan(doc: Seq<u8>, n: nat, fuel: nat) -> Option<Seq<XmlEventModel>>
    decreases fuel,
{
    match markup_event(doc, n) {
        None => None,
        Some((kind, name, attrs)) => match element_kind(kind) {
            None => if kind == RawKind::Eof {
                Some(Seq::empty())
            } else if fuel == 0 {
                None
            } else {
                scan(doc, n + 1, (fuel - 1) as nat)
            },
            Some(k) => if !decodable(name, attrs) || fuel == 0 {
                None
            } else {
                prepend(seq![decoded(k, name, attrs)], scan(doc, n + 1, (fuel - 1) as nat))
            },
        },
    }
}

/// The element events of a document in order, up to its end: a document
/// yields at most one event per byte before its end.
pub open spec fn document_events(doc: Seq<u8>) -> Option<Seq<XmlEventModel>> {
    scan(doc, 0, doc.len())
}

/// Turns one element into the parser's event.
fn element(kind: EventKind, name: Vec<u8>, raw: Vec<(Vec<u8>, Vec<u8>)>) -> (r: Option<XmlEvent>)
    ensures
        r is Some <==> decodable(name@, raw@.map_values(|p: (Vec<u8>, Vec<u8>)| (p.0@, p.1@))),
        r is Some ==> r->Some_0@ == decoded(kind, name@, raw@.map_values(|p: (Vec<u8>, Vec<u8>)| (p.0@, p.1@))),
{
    let ghost attrs = raw@.map_values(|p: (Vec<u8>, Vec<u8>)| (p.0@, p.1@));
    let ghost name_bytes = name@;
    let text = match utf8_text(name) {
        Some(n) => n,
        None => { return None; },
    };
    let mut attributes: Vec<Attribute> = Vec::new();
    let mut i: usize = 0;
    while i < raw.len()
        invariant
            i <= raw@.len(),
            valid_utf8(name_bytes),
            attributes@.len() == i,
            attrs == raw@.map_values(|p: (Vec<u8>, Vec<u8>)| (p.0@, p.1@)),
            forall|j: int| 0 <= j < i ==> valid_utf8((#[trigger] attrs[j]).0) && valid_utf8(attrs[j].1),
            attributes@.map_values(|a: Attribute| (a.key@, a.value@))
                == attrs.take(i as int).map_values(|p: (Seq<u8>, Seq<u8>)| (decode_utf8(p.0), decode_utf8(p.1))),
        decreases raw.len() - i,
    {
        assert(attrs[i as int] == (raw@[i as int].0@, raw@[i as int].1@));
        let kb = raw[i].0.clone();
        assert(kb@ == attrs[i as int].0);
        let key = match utf8_text(kb) {
            Some(k) => k,
            None => { return None; },
        };
        let vb = raw[i].1.clone();
        assert(vb@ == attrs[i as int].1);
        let value = match utf8_text(vb) {
            Some(v) => v,
            None => { return None; },
        };
        assert(valid_utf8(attrs[i as int].0) && valid_utf8(attrs[i as int].1));
        let ghost before = attributes@;
        let ghost pair = (key@, value@);
        attributes.push(Attribute { key, value });
        assert(attributes@.map_values(|a: Attribute| (a.key@, a.value@))
            =~= before.map_values(|a: Attribute| (a.key@, a.value@)).push(pair));
        assert(attrs.take(i + 1).map_values(|p: (Seq<u8>, Seq<u8>)| (decode_utf8(p.0), decode_utf8(p.1)))
            =~= attrs.take(i as int).map_values(|p: (Seq<u8>, Seq<u8>)| (decode_utf8(p.0), decode_utf8(p.1))).push(pair));
        assert(attributes@.map_values(|a: Attribute| (a.key@, a.value@))
            =~= attrs.take(i + 1).map_values(|p: (Seq<u8>, Seq<u8>)| (decode_utf8(p.0), decode_utf8(p.1))));
        i = i + 1;
    }
    assert(attrs.take(i as int) =~= attrs);
    let r = XmlEvent { kind, name: text, attributes };
    assert(r@ =~= decoded(kind, name_bytes, attrs));
    Some(r)
}

/// The element events of a document in order, up to its end; other markup
/// (text, comments, declarations) is left out, as no transition reads it.
pub fn read_events(doc: &[u8]) -> (r: Result<Vec<XmlEvent>, ReportError>)
    ensures
        match document_events(doc@) {
            None => r == Err::<Vec<XmlEvent>, ReportError>(ReportError::InvalidMarkup),
            Some(m) => r is Ok && r->Ok_0@.map_values(|e: XmlEvent| e@) == m,
        },
{
    let mut source = XmlSource::new(doc);
    let mut events: Vec<XmlEvent> = Vec::new();
    let mut budget: usize = doc.len();
    let ghost whole = document_events(doc@);
    assert(events@.map_values(|e: XmlEvent| e@) =~= Seq::<XmlEventModel>::empty());
    assert(prepend(Seq::empty(), scan(doc@, 0, doc@.len())) =~= whole);
    loop
        invariant
            source.document() == doc@,
            whole == document_events(doc@),
            whole == prepend(events@.map_values(|e: XmlEvent| e@), scan(doc@, source.position(), budget as nat)),
        decreases budget,
    {
        let ghost pos = source.position();
        let ghost done = events@.map_values(|e: XmlEvent| e@);
        let e = match read_raw(&mut source) {
            Ok(e) => e,
            Err(err) => { return Err(markup_error(err)); },
        };
        let (raw_kind, name, raw) = e;
        let element_kind = match raw_kind {
            RawKind::Start => Some(EventKind::Start),
            RawKind::End => Some(EventKind::End),
            RawKind::Empty => Some(EventKind::Empty),
            _ => None,
        };
        match element_kind {
            None if raw_kind == RawKind::Eof => {
                assert(done + Seq::<XmlEventModel>::empty() =~= done);
                return Ok(events);
            },
            None => {
                if budget == 0 {
                    return Err(ReportError::InvalidMarkup);
                }
            },
            Some(k) => {
                let ev = match element(k, name, raw) {
                    Some(ev) => ev,
                    None => { return Err(ReportError::InvalidMarkup); },
                };
                if budget == 0 {
                    return Err(ReportError::InvalidMarkup);
                }
                let ghost rest = scan(doc@, pos + 1, (budget - 1) as nat);
                events.push(ev);
                assert(events@.map_values(|e: XmlEvent| e@) =~= done.push(ev@));
                assert(prepend(done, prepend(seq![ev@], rest)) == prepend(done.push(ev@), rest)) by {
                    match rest {
                        Some(s) => { assert(done + (seq![ev@] + s) =~= done.push(ev@) + s); },
                        None => {},
                    }
                }
            },
        }
        budget = budget - 1;
    }
}

/// Reads the hosts of a report document: exactly what the parser makes of
/// the document's element events, or `InvalidMarkup` when they cannot be read.
pub fn parse_document(doc: &[u8]) -> (r: Result<Vec<Host>, ReportError>)
    ensures
        match document_events(doc@) {
            None => r == Err::<Vec<Host>, ReportError>(ReportError::InvalidMarkup),
            Some(m) => exists|evs: Seq<XmlEvent>| #![trigger parse_spec(evs)]
                evs.map_values(|e: XmlEvent| e@) == m && match parse_spec(evs) {
                    Ok(hs) => r is Ok && r->Ok_0@.map_values(|h: Host| h@) == hs,
                    Err(e) => r == Err::<Vec<Host>, ReportError>(ReportError::Malformed(e)),
                },
        },
{
    let events = read_events(doc)?;
    match Parser::parse_events(&events) {
        Ok(hs) => Ok(hs),
        Err(e) => Err(ReportError::Malformed(e)),
    }
}

} // verus!
