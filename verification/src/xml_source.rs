//! Reads an OMML fragment with quick-xml's namespace-aware reader and feeds
//! the events, in the library's own form, to the OMML scan.
use vstd::prelude::*;
use quick_xml::events::Event;
use quick_xml::name::ResolveResult;
use quick_xml::reader::NsReader;
use quick_xml::XmlVersion;
use crate::omml_laws::{
    is_accepted_stream, law_accepted_scan_has_accepted_prefix, lemma_scan_decided, lemma_scan_push,
    scan_events, ScanOutcome,
};
use crate::omml_scan::{
    item_views, AttributeItem, AttributeItemView, AttributeView, ElementTag, EndTag, EndTagView,
    EventView, NameResolution, OmmlScanner, Resolution, ScanStep, TagView, XmlAttribute, XmlEvent,
};

verus! {

/// The kinds of events quick-xml's reader gives.
#[derive(Clone, Copy, PartialEq, Eq, Structural)]
pub enum EventKind {
    Start,
    Empty,
    End,
    Text,
    CData,
    GeneralRef,
    Comment,
    Declaration,
    ProcessingInstruction,
    DocType,
    Eof,
}

/// One call of `NsReader::read_resolved_event`, as values: whether it
/// succeeded, the resolution of the event's name, and the event's kind.
pub struct ReadStep {
    pub ok: bool,
    pub resolution: NameResolution,
    pub kind: EventKind,
}

/// quick-xml's namespace-aware reader over a fragment, with the event it gave
/// last (the end of input before the first read).
#[verifier::external_body]
pub struct OmmlReader<'a> {
    reader: NsReader<&'a [u8]>,
    event: Event<'a>,
}

/// The text the reader reads.
pub uninterp spec fn reader_text(reader: OmmlReader) -> Seq<char>;

/// How many times the reader has been asked for an event.
pub uninterp spec fn reader_steps(reader: OmmlReader) -> nat;

/// What quick-xml's `NsReader`, made by `NsReader::from_str` over `text` with
/// `enable_all_checks(true)` and `check_comments` set, gives when asked for an
/// event for the `index`-th time (counting from 0), as values.
pub uninterp spec fn omml_reader_step(text: Seq<char>, index: nat) -> ReadStep;

/// The qualified name (`BytesStart::name`, `BytesEnd::name`) of the tag that
/// reader gave at that step; empty for other events.
pub uninterp spec fn omml_reader_name(text: Seq<char>, index: nat) -> Seq<u8>;

/// The local name (`BytesStart::local_name`) of the start or empty-element tag
/// that reader gave at that step; empty for other events.
pub uninterp spec fn omml_reader_local_name(text: Seq<char>, index: nat) -> Seq<u8>;

/// The raw bytes (`Deref`) of the text, CDATA section or general reference
/// that reader gave at that step; empty for other events.
pub uninterp spec fn omml_reader_content(text: Seq<char>, index: nat) -> Seq<u8>;

/// The length in bytes (`Deref`) of the content of the start or empty-element
/// tag that reader gave at that step; zero for other events.
pub uninterp spec fn omml_reader_tag_len(text: Seq<char>, index: nat) -> nat;

/// The `position`-th item that `BytesStart::attributes` yields for the start
/// or empty-element tag that the reader above gave at its `index`-th step:
/// `None` when there is no such item, `Some(None)` for an error, and otherwise
/// the attribute's key.
pub uninterp spec fn omml_reader_attribute_key(text: Seq<char>, index: nat, position: nat) -> Option<
    Option<Seq<u8>>,
>;

/// The value of that attribute, from `Attribute::decoded_and_normalized_value`
/// for XML 1.0 with the tag's decoder, as UTF-8 bytes; `None` when it fails.
pub uninterp spec fn omml_reader_attribute_value(text: Seq<char>, index: nat, position: nat) -> Option<
    Seq<u8>,
>;

/// The resolution of that attribute's prefix and its local name, from
/// `NamespaceResolver::resolve_attribute` with the reader's bindings right
/// after that step.
pub uninterp spec fn omml_reader_attribute_resolution(
    text: Seq<char>,
    index: nat,
    position: nat,
) -> (NameResolution, Seq<u8>);

/// The `position`-th attribute item of the tag read at step `index`, put
/// together from the three names above.
pub open spec fn omml_reader_attribute(text: Seq<char>, index: nat, position: nat) -> Option<
    AttributeItemView,
> {
    match omml_reader_attribute_key(text, index, position) {
        None => None,
        Some(None) => Some(AttributeItemView::Malformed),
        Some(Some(key)) => Some(
            AttributeItemView::Parsed(
                AttributeView {
                    key,
                    value: omml_reader_attribute_value(text, index, position),
                    resolution: omml_reader_attribute_resolution(text, index, position).0,
                    local_name: omml_reader_attribute_resolution(text, index, position).1,
                },
            ),
        ),
    }
}

/// The step that the reader took last.
pub open spec fn last_step(reader: OmmlReader) -> ReadStep {
    omml_reader_step(reader_text(reader), (reader_steps(reader) - 1) as nat)
}

/// The reader has given an event, and it was a start or empty-element tag.
pub open spec fn at_tag(reader: OmmlReader) -> bool {
    &&& reader_steps(reader) > 0
    &&& last_step(reader).ok
    &&& (last_step(reader).kind == EventKind::Start || last_step(reader).kind == EventKind::Empty)
}

/// An attribute of the tag the reader gave last.
pub open spec fn attribute_of(reader: OmmlReader, position: nat) -> Option<AttributeItemView> {
    omml_reader_attribute(reader_text(reader), (reader_steps(reader) - 1) as nat, position)
}

/// `NsReader::from_str` over the text, with `enable_all_checks(true)` and
/// `check_comments` set on its configuration: a reader that has not been
/// asked for an event yet.
#[verifier::external_body]
fn open_reader<'a>(text: &'a str) -> (reader: OmmlReader<'a>)
    ensures
        reader_text(reader) == text@,
        reader_steps(reader) == 0,
{
    let mut reader = NsReader::from_str(text);
    reader.config_mut().enable_all_checks(true);
    reader.config_mut().check_comments = true;
    OmmlReader { reader, event: Event::Eof }
}

/// `NsReader::read_resolved_event`: `None` when it reports an error, and
/// otherwise the resolution of the event's name; the event is kept.
#[verifier::external_body]
fn read_step(reader: &mut OmmlReader) -> (resolution: Option<Resolution>)
    ensures
        reader_text(*final(reader)) == reader_text(*old(reader)),
        reader_steps(*final(reader)) == reader_steps(*old(reader)) + 1,
        resolution is Some == omml_reader_step(reader_text(*final(reader)), reader_steps(*old(reader))).ok,
        resolution matches Some(r) ==> r@ == omml_reader_step(reader_text(*final(reader)), reader_steps(*old(reader))).resolution,
{
    match reader.reader.read_resolved_event() {
        Ok((resolution, event)) => {
            let resolution = match resolution {
                ResolveResult::Unbound => Resolution::Unbound,
                ResolveResult::Bound(namespace) => Resolution::Bound(namespace.as_ref().to_vec()),
                ResolveResult::Unknown(_) => Resolution::Unknown,
            };
            reader.event = event;
            Some(resolution)
        },
        Err(_) => None,
    }
}

/// The kind of the event the reader gave last, told apart by its variant.
#[verifier::external_body]
fn step_kind(reader: &OmmlReader) -> (kind: EventKind)
    requires
        reader_steps(*reader) > 0,
        last_step(*reader).ok,
    ensures
        kind == omml_reader_step(reader_text(*reader), (reader_steps(*reader) - 1) as nat).kind,
{
    match &reader.event {
        Event::Start(_) => EventKind::Start,
        Event::Empty(_) => EventKind::Empty,
        Event::End(_) => EventKind::End,
        Event::Text(_) => EventKind::Text,
        Event::CData(_) => EventKind::CData,
        Event::GeneralRef(_) => EventKind::GeneralRef,
        Event::Comment(_) => EventKind::Comment,
        Event::Decl(_) => EventKind::Declaration,
        Event::PI(_) => EventKind::ProcessingInstruction,
        Event::DocType(_) => EventKind::DocType,
        Event::Eof => EventKind::Eof,
    }
}

/// `BytesStart::name` or `BytesEnd::name` of the tag the reader gave last.
#[verifier::external_body]
fn step_name(reader: &OmmlReader) -> (name: Vec<u8>)
    requires
        reader_steps(*reader) > 0,
        last_step(*reader).ok,
    ensures
        name@ == omml_reader_name(reader_text(*reader), (reader_steps(*reader) - 1) as nat),
{
    match &reader.event {
        Event::Start(tag) | Event::Empty(tag) => tag.name().as_ref().to_vec(),
        Event::End(tag) => tag.name().as_ref().to_vec(),
        _ => Vec::new(),
    }
}

/// `BytesStart::local_name` of the tag the reader gave last.
#[verifier::external_body]
fn step_local_name(reader: &OmmlReader) -> (local_name: Vec<u8>)
    requires
        reader_steps(*reader) > 0,
        last_step(*reader).ok,
    ensures
        local_name@ == omml_reader_local_name(reader_text(*reader), (reader_steps(*reader) - 1) as nat),
{
    match &reader.event {
        Event::Start(tag) | Event::Empty(tag) => tag.local_name().as_ref().to_vec(),
        _ => Vec::new(),
    }
}

/// The raw bytes of the text, CDATA section or general reference the reader
/// gave last.
#[verifier::external_body]
fn step_content(reader: &OmmlReader) -> (content: Vec<u8>)
    requires
        reader_steps(*reader) > 0,
        last_step(*reader).ok,
    ensures
        content@ == omml_reader_content(reader_text(*reader), (reader_steps(*reader) - 1) as nat),
{
    match &reader.event {
        Event::Text(text) => text.to_vec(),
        Event::CData(data) => data.to_vec(),
        Event::GeneralRef(reference) => reference.to_vec(),
        _ => Vec::new(),
    }
}

/// The length in bytes of the content (name and attributes) of the tag the
/// reader gave last.
#[verifier::external_body]
fn step_tag_len(reader: &OmmlReader) -> (len: usize)
    requires
        reader_steps(*reader) > 0,
        last_step(*reader).ok,
    ensures
        len == omml_reader_tag_len(reader_text(*reader), (reader_steps(*reader) - 1) as nat),
{
    match &reader.event {
        Event::Start(tag) | Event::Empty(tag) => tag.len(),
        _ => 0,
    }
}

/// The item at `position` of `BytesStart::attributes` of the tag the reader
/// gave last: `None` past the last one, `Some(None)` for an error, and
/// otherwise the attribute's key.
#[verifier::external_body]
fn attribute_key_at(reader: &OmmlReader, position: usize) -> (key: Option<Option<Vec<u8>>>)
    requires
        at_tag(*reader),
    ensures
        key is None == omml_reader_attribute_key(reader_text(*reader), (reader_steps(*reader) - 1) as nat, position as nat) is None,
        (key == Some(None::<Vec<u8>>)) <==> (omml_reader_attribute_key(reader_text(*reader), (reader_steps(*reader) - 1) as nat, position as nat) == Some(
            None::<Seq<u8>>,
        )),
        key matches Some(Some(k)) ==> omml_reader_attribute_key(reader_text(*reader), (reader_steps(*reader) - 1) as nat, position as nat) == Some(Some(k@)),
{
    let tag = match &reader.event {
        Event::Start(tag) | Event::Empty(tag) => tag,
        _ => return None,
    };
    match tag.attributes().nth(position) {
        None => None,
        Some(Err(_)) => Some(None),
        Some(Ok(attribute)) => Some(Some(attribute.key.as_ref().to_vec())),
    }
}

/// `Attribute::decoded_and_normalized_value` for XML 1.0 with the tag's
/// decoder, for the attribute at `position`: its UTF-8 bytes, `None` when it
/// cannot be decoded.
#[verifier::external_body]
fn attribute_value_at(reader: &OmmlReader, position: usize) -> (value: Option<Vec<u8>>)
    requires
        at_tag(*reader),
        omml_reader_attribute_key(reader_text(*reader), (reader_steps(*reader) - 1) as nat, position as nat) matches Some(Some(_)),
    ensures
        value matches Some(v) ==> omml_reader_attribute_value(reader_text(*reader), (reader_steps(*reader) - 1) as nat, position as nat) == Some(v@),
        value is None ==> omml_reader_attribute_value(reader_text(*reader), (reader_steps(*reader) - 1) as nat, position as nat) is None,
{
    let tag = match &reader.event {
        Event::Start(tag) | Event::Empty(tag) => tag,
        _ => return None,
    };
    match tag.attributes().nth(position) {
        Some(Ok(attribute)) => match attribute.decoded_and_normalized_value(
            XmlVersion::Implicit1_0,
            tag.decoder(),
        ) {
            Ok(value) => Some(value.as_bytes().to_vec()),
            Err(_) => None,
        },
        _ => None,
    }
}

/// `NamespaceResolver::resolve_attribute` with the reader's bindings, for the
/// key of the attribute at `position`: the resolution of its prefix and its
/// local name.
#[verifier::external_body]
fn attribute_resolution_at(reader: &OmmlReader, position: usize) -> (r: (Resolution, Vec<u8>))
    requires
        at_tag(*reader),
        omml_reader_attribute_key(reader_text(*reader), (reader_steps(*reader) - 1) as nat, position as nat) matches Some(Some(_)),
    ensures
        r.0@ == omml_reader_attribute_resolution(reader_text(*reader), (reader_steps(*reader) - 1) as nat, position as nat).0,
        r.1@ == omml_reader_attribute_resolution(reader_text(*reader), (reader_steps(*reader) - 1) as nat, position as nat).1,
{
    let tag = match &reader.event {
        Event::Start(tag) | Event::Empty(tag) => tag,
        _ => return (Resolution::Unknown, Vec::new()),
    };
    let Some(Ok(attribute)) = tag.attributes().nth(position) else {
        return (Resolution::Unknown, Vec::new());
    };
    let (resolution, local_name) = reader.reader.resolver().resolve_attribute(attribute.key);
    let resolution = match resolution {
        ResolveResult::Unbound => Resolution::Unbound,
        ResolveResult::Bound(namespace) => Resolution::Bound(namespace.as_ref().to_vec()),
        ResolveResult::Unknown(_) => Resolution::Unknown,
    };
    (resolution, local_name.as_ref().to_vec())
}

/// The attributes of the tag read at step `index`, from `position` on, as the
/// library collects them: up to the last one or the first malformed one, and
/// at most `fuel` well-formed ones, a further one counting as malformed.
pub open spec fn attributes_read(text: Seq<char>, index: nat, position: nat, fuel: nat) -> Seq<
    AttributeItemView,
>
    decreases fuel,
{
    match omml_reader_attribute(text, index, position) {
        None => Seq::empty(),
        Some(AttributeItemView::Malformed) => seq![AttributeItemView::Malformed],
        Some(AttributeItemView::Parsed(a)) => if fuel == 0 {
            seq![AttributeItemView::Malformed]
        } else {
            seq![AttributeItemView::Parsed(a)] + attributes_read(
                text,
                index,
                position + 1,
                (fuel - 1) as nat,
            )
        },
    }
}

/// The tag read at step `index`. Every attribute takes at least one byte of
/// the tag, so the tag's length bounds how many are collected.
pub open spec fn tag_at(text: Seq<char>, index: nat) -> TagView {
    let step = omml_reader_step(text, index);
    TagView {
        resolution: step.resolution,
        name: omml_reader_name(text, index),
        local_name: omml_reader_local_name(text, index),
        attributes: attributes_read(text, index, 0, omml_reader_tag_len(text, index)),
    }
}

/// What the reader gives at step `index`, in the library's form.
pub open spec fn event_at(text: Seq<char>, index: nat) -> EventView {
    let step = omml_reader_step(text, index);
    if !step.ok {
        EventView::Error
    } else {
        match step.kind {
            EventKind::Start => EventView::Start(tag_at(text, index)),
            EventKind::Empty => EventView::Empty(tag_at(text, index)),
            EventKind::End => EventView::End(
                EndTagView { resolution: step.resolution, name: omml_reader_name(text, index) },
            ),
            EventKind::Text => EventView::Text(omml_reader_content(text, index)),
            EventKind::CData => EventView::CData(omml_reader_content(text, index)),
            EventKind::GeneralRef => EventView::GeneralRef(omml_reader_content(text, index)),
            EventKind::Comment => EventView::Comment,
            EventKind::Declaration => EventView::Declaration,
            EventKind::ProcessingInstruction => EventView::ProcessingInstruction,
            EventKind::DocType => EventView::DocType,
            EventKind::Eof => EventView::Eof,
        }
    }
}

/// The events the reader gives for a text, one for each byte of the text.
/// Every event before the end of input takes at least one byte, so these
/// events reach the end of input, and a scan over them is decided.
pub open spec fn omml_reader_events(text: Seq<char>) -> Seq<EventView> {
    Seq::new(vstd::utf8::encode_utf8(text).len(), |i: int| event_at(text, i as nat))
}

/// The text is one Office Math fragment: the scan accepts the events that
/// quick-xml's reader gives for it.
pub open spec fn is_omml_text(text: Seq<char>) -> bool {
    scan_events(OmmlScanner::initial(), omml_reader_events(text)) is Accepted
}

/// Law: for a valid text, the events that quick-xml gives begin with an
/// accepted stream, so the laws on accepted streams (one `oMath` root in the
/// Office Math namespace, well-formed names, attributes and character data, no
/// comment, declaration, processing instruction or document type definition)
/// hold of what is read from the text.
pub proof fn law_valid_text_begins_with_accepted_stream(text: Seq<char>)
    requires
        is_omml_text(text),
    ensures
        exists|k: int|
            0 < k <= omml_reader_events(text).len() && is_accepted_stream(
                #[trigger] omml_reader_events(text).take(k),
            ),
{
    law_accepted_scan_has_accepted_prefix(omml_reader_events(text));
}

/// The attributes of the tag the reader gave last, collecting at most `fuel`
/// well-formed ones.
fn read_attributes(reader: &OmmlReader, fuel: usize) -> (items: Vec<AttributeItem>)
    requires
        at_tag(*reader),
    ensures
        item_views(items@) == attributes_read(
            reader_text(*reader),
            (reader_steps(*reader) - 1) as nat,
            0,
            fuel as nat,
        ),
{
    let ghost text = reader_text(*reader);
    let ghost index = (reader_steps(*reader) - 1) as nat;
    let mut items: Vec<AttributeItem> = Vec::new();
    let mut position: usize = 0;
    let mut left: usize = fuel;
    loop
        invariant_except_break
            at_tag(*reader),
            text == reader_text(*reader),
            index == (reader_steps(*reader) - 1) as nat,
            position + left == fuel,
            item_views(items@) + attributes_read(text, index, position as nat, left as nat)
                == attributes_read(text, index, 0, fuel as nat),
        ensures
            item_views(items@) == attributes_read(text, index, 0, fuel as nat),
        decreases left,
    {
        let ghost before = items@;
        match attribute_key_at(reader, position) {
            None => {
                assert(item_views(items@) =~= item_views(items@) + Seq::<AttributeItemView>::empty());
                break ;
            },
            Some(None) => {
                items.push(AttributeItem::Malformed);
                assert(item_views(items@) =~= item_views(before).push(AttributeItemView::Malformed));
                break ;
            },
            Some(Some(key)) => {
                if left == 0 {
                    items.push(AttributeItem::Malformed);
                    assert(item_views(items@) =~= item_views(before).push(
                        AttributeItemView::Malformed,
                    ));
                    break ;
                }
                let value = attribute_value_at(reader, position);
                let (resolution, local_name) = attribute_resolution_at(reader, position);
                let attribute = XmlAttribute { key, value, resolution, local_name };
                proof {
                    let a = attribute_of(*reader, position as nat)->Some_0->Parsed_0;
                    assert(attribute@ == a);
                }
                items.push(AttributeItem::Parsed(attribute));
                proof {
                    let a = attribute_of(*reader, position as nat)->Some_0->Parsed_0;
                    assert(item_views(items@) =~= item_views(before).push(
                        AttributeItemView::Parsed(a),
                    ));
                    assert(item_views(items@) + attributes_read(
                        text,
                        index,
                        (position + 1) as nat,
                        (left - 1) as nat,
                    ) =~= item_views(before) + attributes_read(
                        text,
                        index,
                        position as nat,
                        left as nat,
                    ));
                }
                position = position + 1;
                left = left - 1;
            },
        }
    }
    items
}

/// The start or empty-element tag the reader gave last, with this resolution.
fn element_tag(reader: &OmmlReader, resolution: Resolution) -> (tag: ElementTag)
    requires
        at_tag(*reader),
        resolution@ == last_step(*reader).resolution,
    ensures
        tag@ == tag_at(reader_text(*reader), (reader_steps(*reader) - 1) as nat),
{
    let name = step_name(reader);
    let local_name = step_local_name(reader);
    let len = step_tag_len(reader);
    let attributes = read_attributes(reader, len);
    ElementTag { resolution, name, local_name, attributes }
}

/// The next event of the reader in the library's form; `None` on a read error.
fn next_event(reader: &mut OmmlReader) -> (r: Option<XmlEvent>)
    ensures
        reader_text(*final(reader)) == reader_text(*old(reader)),
        reader_steps(*final(reader)) == reader_steps(*old(reader)) + 1,
        match r {
            Some(event) => event@ == event_at(reader_text(*old(reader)), reader_steps(*old(reader))),
            None => event_at(reader_text(*old(reader)), reader_steps(*old(reader))) is Error,
        },
{
    let resolution = match read_step(reader) {
        None => {
            return None;
        },
        Some(resolution) => resolution,
    };
    let event = match step_kind(reader) {
        EventKind::Start => XmlEvent::Start(element_tag(reader, resolution)),
        EventKind::Empty => XmlEvent::Empty(element_tag(reader, resolution)),
        EventKind::End => XmlEvent::End(EndTag { resolution, name: step_name(reader) }),
        EventKind::Text => XmlEvent::Text(step_content(reader)),
        EventKind::CData => XmlEvent::CData(step_content(reader)),
        EventKind::GeneralRef => XmlEvent::GeneralRef(step_content(reader)),
        EventKind::Comment => XmlEvent::Comment,
        EventKind::Declaration => XmlEvent::Declaration,
        EventKind::ProcessingInstruction => XmlEvent::ProcessingInstruction,
        EventKind::DocType => XmlEvent::DocType,
        EventKind::Eof => XmlEvent::Eof,
    };
    Some(event)
}

/// Whether the text is a single Office Math fragment: quick-xml reads it with
/// all its checks on, and the scan accepts the events it gives; a read error
/// rejects the text.
pub fn is_valid_omml(omml: &str) -> (r: bool)
    ensures
        r == (scan_events(OmmlScanner::initial(), omml_reader_events(omml@)) is Accepted),
{
    let ghost events = omml_reader_events(omml@);
    let mut reader = open_reader(omml);
    let mut scanner = OmmlScanner::new();
    let total: usize = omml.as_bytes().len();
    let mut i: usize = 0;
    while i < total
        invariant
            total == events.len(),
            events == omml_reader_events(omml@),
            i <= total,
            reader_text(reader) == omml@,
            reader_steps(reader) == i,
            scanner.depth <= i,
            scan_events(OmmlScanner::initial(), events.take(i as int)) == ScanOutcome::Running(
                scanner,
            ),
        decreases total - i,
    {
        let ghost prefix = events.take(i as int);
        proof {
            assert(events.take(i + 1) =~= prefix.push(events[i as int]));
            lemma_scan_push(OmmlScanner::initial(), prefix, events[i as int]);
        }
        let event = match next_event(&mut reader) {
            None => {
                proof {
                    lemma_scan_decided(OmmlScanner::initial(), events.take(i + 1), events);
                }
                return false;
            },
            Some(event) => event,
        };
        let step = scanner.feed(&event);
        match step {
            ScanStep::Continue => {},
            ScanStep::Accept => {
                proof {
                    lemma_scan_decided(OmmlScanner::initial(), events.take(i + 1), events);
                }
                return true;
            },
            ScanStep::Reject => {
                proof {
                    lemma_scan_decided(OmmlScanner::initial(), events.take(i + 1), events);
                }
                return false;
            },
        }
        i = i + 1;
    }
    assert(events.take(total as int) =~= events);
    false
}

/// Law: each step of the reader becomes the event of its kind: a read error
/// is `Error`; a start or empty-element tag carries the step's resolution,
/// name and local name; an end tag the resolution and name; text, CDATA and
/// references their raw bytes; the other kinds carry nothing. The stream
/// holds one event for each byte of the text, in reading order.
pub proof fn law_events_follow_the_reader(text: Seq<char>, index: nat)
    ensures
        !omml_reader_step(text, index).ok ==> event_at(text, index) == EventView::Error,
        omml_reader_step(text, index).ok && omml_reader_step(text, index).kind == EventKind::Start
            ==> event_at(text, index) is Start && event_at(text, index)->Start_0.resolution
            == omml_reader_step(text, index).resolution && event_at(text, index)->Start_0.name
            == omml_reader_name(text, index) && event_at(text, index)->Start_0.local_name
            == omml_reader_local_name(text, index),
        omml_reader_step(text, index).ok && omml_reader_step(text, index).kind == EventKind::Empty
            ==> event_at(text, index) is Empty && event_at(text, index)->Empty_0.resolution
            == omml_reader_step(text, index).resolution && event_at(text, index)->Empty_0.name
            == omml_reader_name(text, index),
        omml_reader_step(text, index).ok && omml_reader_step(text, index).kind == EventKind::End
            ==> event_at(text, index) is End && event_at(text, index)->End_0.name
            == omml_reader_name(text, index),
        omml_reader_step(text, index).ok && omml_reader_step(text, index).kind == EventKind::Text
            ==> event_at(text, index) == EventView::Text(omml_reader_content(text, index)),
        omml_reader_step(text, index).ok && omml_reader_step(text, index).kind == EventKind::CData
            ==> event_at(text, index) == EventView::CData(omml_reader_content(text, index)),
        omml_reader_step(text, index).ok && omml_reader_step(text, index).kind
            == EventKind::GeneralRef ==> event_at(text, index) == EventView::GeneralRef(
            omml_reader_content(text, index),
        ),
        omml_reader_step(text, index).ok && omml_reader_step(text, index).kind == EventKind::Comment
            ==> event_at(text, index) == EventView::Comment,
        omml_reader_step(text, index).ok && omml_reader_step(text, index).kind
            == EventKind::Declaration ==> event_at(text, index) == EventView::Declaration,
        omml_reader_step(text, index).ok && omml_reader_step(text, index).kind
            == EventKind::ProcessingInstruction ==> event_at(text, index)
            == EventView::ProcessingInstruction,
        omml_reader_step(text, index).ok && omml_reader_step(text, index).kind == EventKind::DocType
            ==> event_at(text, index) == EventView::DocType,
        omml_reader_step(text, index).ok && omml_reader_step(text, index).kind == EventKind::Eof
            ==> event_at(text, index) == EventView::Eof,
        omml_reader_events(text).len() == vstd::utf8::encode_utf8(text).len(),
        index < omml_reader_events(text).len() ==> omml_reader_events(text)[index as int]
            == event_at(text, index),
{
}

} // verus!
