//! Scanner reports: the events of an XML document.

use crate::text::same;
use vstd::prelude::*;
use xml::reader::EventReader;
use xml::reader::XmlEvent::{
    CData, Characters, Comment, EndDocument, EndElement, ProcessingInstruction, StartDocument,
    StartElement, Whitespace,
};

verus! {

/// What a reader meets in an XML document, in document order. Names are given without their
/// namespace, attributes as pairs of a name and a value.
#[derive(Debug)]
pub enum Event {
    StartDocument,
    EndDocument,
    ProcessingInstruction,
    StartElement { name: String, attributes: Vec<(String, String)> },
    EndElement { name: String },
    CData,
    Comment,
    Characters(String),
    Whitespace,
    /// The document is not well-formed from here on.
    Malformed,
}

/// An [`Event`] as far as reports are read.
pub enum EventView {
    Start { name: Seq<char>, attributes: Seq<(Seq<char>, Seq<char>)> },
    End { name: Seq<char> },
    Text { text: Seq<char> },
    Other,
}

impl View for Event {
    type V = EventView;

    open spec fn view(&self) -> EventView {
        match self {
            Event::StartElement { name, attributes } => EventView::Start {
                name: name@,
                attributes: attributes.deep_view(),
            },
            Event::EndElement { name } => EventView::End { name: name@ },
            Event::Characters(text) => EventView::Text { text: text@ },
            _ => EventView::Other,
        }
    }
}

impl DeepView for Event {
    type V = EventView;

    open spec fn deep_view(&self) -> EventView {
        self@
    }
}

/// The events that `xml::EventReader` reports for a document, in order. Where the document is
/// not well-formed, they end at the first error.
pub uninterp spec fn xml_events(document: Seq<char>) -> Seq<EventView>;

/// The events of a document, read with `xml::EventReader::from_str` and the iterator that the
/// reader turns into.
///
/// Claimed: which events there are, and their order, depends on the document alone.
#[verifier::external_body]
pub(crate) fn read_events(document: &str) -> (events: Vec<Event>)
    ensures
        events.deep_view() == xml_events(document@),
{
    let convert = |event| match event {
        Ok(StartDocument { .. }) => Event::StartDocument,
        Ok(EndDocument) => Event::EndDocument,
        Ok(ProcessingInstruction { .. }) => Event::ProcessingInstruction,
        Ok(StartElement { name, attributes, .. }) => Event::StartElement { name: name.local_name, attributes: attributes.into_iter().map(|a| (a.name.local_name, a.value)).collect() },
        Ok(EndElement { name }) => Event::EndElement { name: name.local_name },
        Ok(CData(_)) => Event::CData,
        Ok(Comment(_)) => Event::Comment,
        Ok(Characters(text)) => Event::Characters(text),
        Ok(Whitespace(_)) => Event::Whitespace,
        Err(_) => Event::Malformed,
    };
    EventReader::from_str(document).into_iter().map(convert).collect()
}

/// The value of the first attribute called `name`.
pub open spec fn attribute_value(
    attributes: Seq<(Seq<char>, Seq<char>)>,
    name: Seq<char>,
) -> Option<Seq<char>>
    decreases attributes.len(),
{
    if attributes.len() == 0 {
        None
    } else if attributes[0].0 == name {
        Some(attributes[0].1)
    } else {
        attribute_value(attributes.skip(1), name)
    }
}

/// The value of the first attribute called `name`.
pub fn attribute(attributes: &Vec<(String, String)>, name: &str) -> (result: Option<String>)
    ensures
        result.deep_view() == attribute_value(attributes.deep_view(), name@),
{
    let ghost all = attributes.deep_view();
    assert(all.skip(0) == all);
    let mut i: usize = 0;
    while i < attributes.len()
        invariant
            i <= attributes.len(),
            all == attributes.deep_view(),
            attribute_value(all, name@) == attribute_value(all.skip(i as int), name@),
        decreases attributes.len() - i,
    {
        assert(all.skip(i as int)[0] == attributes@[i as int].deep_view());
        assert(all.skip(i as int).skip(1) == all.skip(i + 1));
        if same(attributes[i].0.as_str(), name) {
            return Some(attributes[i].1.clone());
        }
        i = i + 1;
    }
    None
}

/// An attribute has the value that stands first under its name.
pub proof fn law_attribute_found(
    attributes: Seq<(Seq<char>, Seq<char>)>,
    name: Seq<char>,
    i: int,
)
    requires
        0 <= i < attributes.len(),
        attributes[i].0 == name,
        forall|j: int| 0 <= j < i ==> (#[trigger] attributes[j]).0 != name,
    ensures
        attribute_value(attributes, name) == Some(attributes[i].1),
    decreases i,
{
    if i > 0 {
        let rest = attributes.skip(1);
        assert forall|j: int| 0 <= j < i - 1 implies (#[trigger] rest[j]).0 != name by {
            assert(rest[j] == attributes[j + 1]);
        }
        assert(attributes[0].0 != name);
        law_attribute_found(rest, name, i - 1);
    }
}

/// An attribute whose name does not occur has no value.
pub proof fn law_attribute_missing(attributes: Seq<(Seq<char>, Seq<char>)>, name: Seq<char>)
    requires
        forall|j: int| 0 <= j < attributes.len() ==> (#[trigger] attributes[j]).0 != name,
    ensures
        attribute_value(attributes, name) is None,
    decreases attributes.len(),
{
    if attributes.len() > 0 {
        let rest = attributes.skip(1);
        assert forall|j: int| 0 <= j < rest.len() implies (#[trigger] rest[j]).0 != name by {
            assert(rest[j] == attributes[j + 1]);
        }
        assert(attributes[0].0 != name);
        law_attribute_missing(rest, name);
    }
}

/// Readers of a report see of an event the name and the attributes of an element that starts, the
/// name of one that ends, and all of its text.
pub proof fn law_events_seen(name: String, attributes: Vec<(String, String)>, text: String)
    ensures
        (Event::StartElement { name, attributes })@ == (EventView::Start {
            name: name@,
            attributes: attributes.deep_view(),
        }),
        (Event::EndElement { name })@ == (EventView::End { name: name@ }),
        Event::Characters(text)@ == (EventView::Text { text: text@ }),
        Event::Whitespace@ == EventView::Other,
        Event::CData@ == EventView::Other,
        Event::Comment@ == EventView::Other,
        Event::Malformed@ == EventView::Other,
{
}

} // verus!
