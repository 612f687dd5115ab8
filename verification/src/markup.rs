//! Markup events, and the `quick_xml` reader that yields them.

use vstd::prelude::*;
use quick_xml::events::Event;
use quick_xml::Reader;
use crate::markup::ReadStep::{CData, Close, End, Malformed, Open, Other, Text};

verus! {

/// A markup event as a mathematical value.
pub enum Markup {
    /// An element opens; its name.
    Open(Seq<char>),
    /// An element closes.
    Close,
    /// Character data; its decoded text.
    Text(Seq<char>),
    /// An embedded-text section; its decoded text.
    CData(Seq<char>),
    /// Anything else: a comment, a declaration, a processing instruction, an
    /// entity reference, an empty element.
    Other,
}

/// A markup event.
#[derive(Debug)]
pub enum MarkupEvent {
    Open(String),
    Close,
    Text(String),
    CData(String),
    Other,
}

impl View for MarkupEvent {
    type V = Markup;

    open spec fn view(&self) -> Markup {
        match self {
            MarkupEvent::Open(name) => Markup::Open(name@),
            MarkupEvent::Close => Markup::Close,
            MarkupEvent::Text(text) => Markup::Text(text@),
            MarkupEvent::CData(text) => Markup::CData(text@),
            MarkupEvent::Other => Markup::Other,
        }
    }
}

/// The views of a sequence of events, in order.
pub open spec fn markups(events: Seq<MarkupEvent>) -> Seq<Markup> {
    events.map_values(|e: MarkupEvent| e@)
}

/// What one read of the markup gave: an event, or how the reading ended.
pub(crate) enum ReadStep {
    Open(String),
    Close,
    Text(String),
    CData(String),
    Other,
    /// The input is at its end.
    End,
    /// The reader reported an error, or an event held bytes that are no text.
    Malformed,
}

impl ReadStep {
    /// The event that was read, if one was.
    pub(crate) open spec fn event(self) -> Option<Markup> {
        match self {
            ReadStep::Open(name) => Some(Markup::Open(name@)),
            ReadStep::Close => Some(Markup::Close),
            ReadStep::Text(text) => Some(Markup::Text(text@)),
            ReadStep::CData(text) => Some(Markup::CData(text@)),
            ReadStep::Other => Some(Markup::Other),
            ReadStep::End | ReadStep::Malformed => None,
        }
    }
}

/// `quick_xml::Reader`, carried through as an opaque value. What a reader on
/// a byte slice will still yield is spoken of through `pending_events` and
/// `ends_cleanly`.
#[verifier::external_type_specification]
#[verifier::external_body]
#[verifier::reject_recursive_types(R)]
pub struct ExReader<R>(Reader<R>);

/// The events that a `quick_xml::Reader` opened on `text` with the two
/// settings yields, one per read, before it reports the end of input or its
/// first error.
pub uninterp spec fn markup_events(
    text: Seq<char>,
    check_end_names: bool,
    allow_unmatched_ends: bool,
) -> Seq<Markup>;

/// Whether a `quick_xml::Reader` opened on `text` with the two settings
/// reaches the end of input without reporting an error.
pub uninterp spec fn markup_complete(
    text: Seq<char>,
    check_end_names: bool,
    allow_unmatched_ends: bool,
) -> bool;

/// The events that `reader` has yet to yield before it reports the end of
/// input or an error.
pub uninterp spec fn pending_events(reader: Reader<&[u8]>) -> Seq<Markup>;

/// Whether `reader`, once its pending events are read, reports the end of
/// input rather than an error.
pub uninterp spec fn ends_cleanly(reader: Reader<&[u8]>) -> bool;

/// Calls `quick_xml::Reader::from_str` and sets `check_end_names` and
/// `allow_unmatched_ends` in its configuration. What the new reader will
/// yield is, by definition, what the two names above say of `text`.
#[verifier::external_body]
pub(crate) fn open_reader<'a>(
    text: &'a str,
    check_end_names: bool,
    allow_unmatched_ends: bool,
) -> (reader: Reader<&'a [u8]>)
    ensures
        pending_events(reader) == markup_events(text@, check_end_names, allow_unmatched_ends),
        ends_cleanly(reader) == markup_complete(text@, check_end_names, allow_unmatched_ends),
{
    let mut reader = Reader::from_str(text);
    reader.config_mut().check_end_names = check_end_names;
    reader.config_mut().allow_unmatched_ends = allow_unmatched_ends;
    reader
}

/// Calls `quick_xml::Reader::read_event_into` once and converts what it
/// returns: `Start` to `Open` with the element's name, `End` to `Close`,
/// `Text` and `CData` to the variant of the same name with the decoded
/// content, `Eof` to `End`, any other event to `Other`, an error or content
/// that does not decode to `Malformed`.
///
/// The reader works on a slice in memory, so what it yields is fixed by its
/// state: a read that gives an event gives the first pending one and leaves
/// the rest pending; the end or an error comes when none is pending.
#[verifier::external_body]
pub(crate) fn read_step(reader: &mut Reader<&[u8]>) -> (step: ReadStep)
    ensures
        match step.event() {
            Some(event) => {
                &&& pending_events(*old(reader)).len() > 0
                &&& pending_events(*old(reader))[0] == event
                &&& pending_events(*final(reader)) == pending_events(*old(reader)).drop_first()
                &&& ends_cleanly(*final(reader)) == ends_cleanly(*old(reader))
            },
            None => {
                &&& pending_events(*old(reader)).len() == 0
                &&& ends_cleanly(*old(reader)) == (step is End)
            },
        },
{
    let mut buf = Vec::new();
    match reader.read_event_into(&mut buf) {
        Ok(Event::Start(e)) => match std::str::from_utf8(e.name().as_ref()) {
            Ok(name) => Open(name.to_string()),
            Err(_) => Malformed,
        },
        Ok(Event::End(_)) => Close,
        Ok(Event::Text(e)) => e.decode().map_or(Malformed, |t| Text(t.into_owned())),
        Ok(Event::CData(e)) => e.decode().map_or(Malformed, |t| CData(t.into_owned())),
        Ok(Event::Eof) => End,
        Ok(_) => Other,
        Err(_) => Malformed,
    }
}

} // verus!
