//! What an accepted stream of XML events looks like: properties of the whole
//! scan, proved from the single steps of `OmmlScanner`.
use vstd::prelude::*;
use crate::omml_scan::{
    event_views, is_math_root_name, tag_ok, EndTagView, EventView, OmmlScanner, ScanStep, TagView,
    XmlEvent,
};
use crate::xml_rules::{
    holds_cdata_end, is_qualified_name, is_valid_reference, is_xml_character_data, is_xml_space,
};

verus! {

/// Where a scan over a sequence of events stands.
pub enum ScanOutcome {
    Running(OmmlScanner),
    Accepted,
    Rejected,
}

/// Feeds the events one by one from `state`; the first `Accept` or `Reject`
/// ends the scan, and the events after it are not read.
pub open spec fn scan_events(state: OmmlScanner, events: Seq<EventView>) -> ScanOutcome
    decreases events.len(),
{
    if events.len() == 0 {
        ScanOutcome::Running(state)
    } else {
        let (next, step) = state.step(events[0]);
        match step {
            ScanStep::Continue => scan_events(next, events.drop_first()),
            ScanStep::Accept => ScanOutcome::Accepted,
            ScanStep::Reject => ScanOutcome::Rejected,
        }
    }
}

/// A stream that the scan accepts at its last event, having continued at all
/// the others.
pub open spec fn is_accepted_stream(events: Seq<EventView>) -> bool {
    &&& events.len() > 0
    &&& scan_events(OmmlScanner::initial(), events.drop_last()) is Running
    &&& scan_events(OmmlScanner::initial(), events.drop_last())->Running_0.step(events.last()).1
        == ScanStep::Accept
}

/// The state of the scan before event `i`.
pub open spec fn state_before(events: Seq<EventView>, i: int) -> OmmlScanner {
    match scan_events(OmmlScanner::initial(), events.take(i)) {
        ScanOutcome::Running(state) => state,
        _ => OmmlScanner::initial(),
    }
}

/// The tag of a start or empty-element event.
pub open spec fn opened_tag(event: EventView) -> Option<TagView> {
    match event {
        EventView::Start(tag) => Some(tag),
        EventView::Empty(tag) => Some(tag),
        _ => None,
    }
}

/// Event `i` opens an element outside of any other element.
pub open spec fn opens_top_level(events: Seq<EventView>, i: int) -> bool {
    opened_tag(events[i]) is Some && state_before(events, i).depth == 0
}

/// Scanning one more event continues from where the scan stood.
pub proof fn lemma_scan_push(state: OmmlScanner, events: Seq<EventView>, event: EventView)
    ensures
        scan_events(state, events.push(event)) == match scan_events(state, events) {
            ScanOutcome::Running(s) => match s.step(event).1 {
                ScanStep::Continue => ScanOutcome::Running(s.step(event).0),
                ScanStep::Accept => ScanOutcome::Accepted,
                ScanStep::Reject => ScanOutcome::Rejected,
            },
            other => other,
        },
    decreases events.len(),
{
    if events.len() == 0 {
        assert(events.push(event).drop_first() =~= Seq::<EventView>::empty());
        assert(events.push(event)[0] == event);
    } else {
        let (next, step) = state.step(events[0]);
        assert(events.push(event)[0] == events[0]);
        assert(events.push(event).drop_first() =~= events.drop_first().push(event));
        if step == ScanStep::Continue {
            lemma_scan_push(next, events.drop_first(), event);
        }
    }
}

/// Whether the scan accepts a recorded stream of events (the events after
/// the first decision are not read).
pub fn omml_events_accepted(events: &Vec<XmlEvent>) -> (r: bool)
    ensures
        r == (scan_events(OmmlScanner::initial(), event_views(events@)) is Accepted),
{
    let ghost views = event_views(events@);
    let mut scanner = OmmlScanner::new();
    let mut i: usize = 0;
    while i < events.len()
        invariant
            i <= events@.len() == views.len(),
            views == event_views(events@),
            scanner.depth <= i,
            scan_events(OmmlScanner::initial(), views.take(i as int)) == ScanOutcome::Running(
                scanner,
            ),
        decreases events@.len() - i,
    {
        let step = scanner.feed(&events[i]);
        proof {
            assert(views[i as int] == events@[i as int]@);
            assert(views.take(i + 1) =~= views.take(i as int).push(views[i as int]));
            lemma_scan_push(OmmlScanner::initial(), views.take(i as int), views[i as int]);
        }
        match step {
            ScanStep::Continue => {},
            ScanStep::Accept => {
                proof {
                    lemma_scan_decided(OmmlScanner::initial(), views.take(i + 1), views);
                }
                return true;
            },
            ScanStep::Reject => {
                proof {
                    lemma_scan_decided(OmmlScanner::initial(), views.take(i + 1), views);
                }
                return false;
            },
        }
        i = i + 1;
    }
    assert(views.take(views.len() as int) =~= views);
    false
}

/// Once a prefix of the events decides the scan, the rest is not read.
pub proof fn lemma_scan_decided(state: OmmlScanner, prefix: Seq<EventView>, events: Seq<EventView>)
    requires
        prefix.len() <= events.len(),
        prefix == events.take(prefix.len() as int),
        !(scan_events(state, prefix) is Running),
    ensures
        scan_events(state, events) == scan_events(state, prefix),
    decreases prefix.len(),
{
    if prefix.len() > 0 {
        let (next, step) = state.step(events[0]);
        assert(prefix[0] == events[0]);
        if step == ScanStep::Continue {
            assert(prefix.drop_first() =~= events.drop_first().take(prefix.len() - 1));
            lemma_scan_decided(next, prefix.drop_first(), events.drop_first());
        }
    }
}

/// Before every event of an accepted stream the scan is still running, and the
/// events before the last one all continue it.
proof fn lemma_running_prefixes(events: Seq<EventView>, k: int)
    requires
        is_accepted_stream(events),
        0 <= k < events.len(),
    ensures
        scan_events(OmmlScanner::initial(), events.take(k)) is Running,
        k < events.len() - 1 ==> state_before(events, k).step(events[k]).1 == ScanStep::Continue,
        k < events.len() - 1 ==> state_before(events, k + 1) == state_before(events, k).step(
            events[k],
        ).0,
        k == events.len() - 1 ==> state_before(events, k).step(events[k]).1 == ScanStep::Accept,
    decreases events.len() - k,
{
    let init = OmmlScanner::initial();
    if k == events.len() - 1 {
        assert(events.take(k) =~= events.drop_last());
    } else {
        lemma_running_prefixes(events, k + 1);
        assert(events.take(k + 1) =~= events.take(k).push(events[k]));
        lemma_scan_push(init, events.take(k), events[k]);
    }
}

/// Law: an accepted stream ends with the end of input and holds no other end
/// of input, no comment, declaration, processing instruction or document type
/// definition; its element tags are well formed, its end tags resolve and have
/// qualified names, its text is XML character data without `]]>`, and outside
/// the root element only whitespace, never CDATA or references, occurs.
pub proof fn law_accepted_stream_is_well_formed(events: Seq<EventView>)
    requires
        is_accepted_stream(events),
    ensures
        events.last() is Eof,
        forall|i: int| 0 <= i < events.len() - 1 ==> !(#[trigger] events[i] is Eof),
        forall|i: int|
            0 <= i < events.len() ==> !(#[trigger] events[i] is Comment || events[i] is Declaration
                || events[i] is ProcessingInstruction || events[i] is DocType),
        forall|i: int|
            0 <= i < events.len() && #[trigger] opened_tag(events[i]) is Some ==> tag_ok(
                opened_tag(events[i])->0,
            ),
        forall|i: int|
            0 <= i < events.len() && #[trigger] events[i] is End ==> !(events[i]->End_0.resolution is Unknown)
                && is_qualified_name(events[i]->End_0.name),
        forall|i: int|
            0 <= i < events.len() && #[trigger] events[i] is Text ==> is_xml_character_data(
                events[i]->Text_0,
            ) && !holds_cdata_end(events[i]->Text_0) && (state_before(events, i).depth == 0
                ==> is_xml_space(events[i]->Text_0)),
        forall|i: int|
            0 <= i < events.len() && (#[trigger] events[i] is CData || events[i] is GeneralRef)
                ==> state_before(events, i).depth > 0,
{
    assert forall|i: int| 0 <= i < events.len() implies {
        &&& (i < events.len() - 1 ==> !(#[trigger] events[i] is Eof))
        &&& !(events[i] is Comment || events[i] is Declaration || events[i] is ProcessingInstruction
            || events[i] is DocType)
        &&& (opened_tag(events[i]) is Some ==> tag_ok(opened_tag(events[i])->0))
        &&& (events[i] is End ==> !(events[i]->End_0.resolution is Unknown) && is_qualified_name(
            events[i]->End_0.name,
        ))
        &&& (events[i] is Text ==> is_xml_character_data(events[i]->Text_0) && !holds_cdata_end(
            events[i]->Text_0,
        ) && (state_before(events, i).depth == 0 ==> is_xml_space(events[i]->Text_0)))
        &&& ((events[i] is CData || events[i] is GeneralRef) ==> state_before(events, i).depth > 0)
    } by {
        lemma_running_prefixes(events, i);
    }
    lemma_running_prefixes(events, events.len() - 1);
}

/// Once the root has been seen, it stays seen.
proof fn lemma_saw_root_stays(events: Seq<EventView>, i: int, j: int)
    requires
        is_accepted_stream(events),
        0 <= i <= j < events.len(),
        state_before(events, i).saw_root,
    ensures
        state_before(events, j).saw_root,
    decreases j - i,
{
    if i < j {
        lemma_running_prefixes(events, i);
        lemma_saw_root_stays(events, i + 1, j);
    }
}

/// When the root has been seen, some earlier event opened it at the top level.
proof fn lemma_saw_root_has_opener(events: Seq<EventView>, k: int)
    requires
        is_accepted_stream(events),
        0 <= k < events.len(),
        state_before(events, k).saw_root,
    ensures
        exists|i: int| 0 <= i < k && #[trigger] opens_top_level(events, i),
    decreases k,
{
    if k == 0 {
        assert(events.take(0) =~= Seq::<EventView>::empty());
    } else {
        lemma_running_prefixes(events, k - 1);
        if state_before(events, k - 1).saw_root {
            lemma_saw_root_has_opener(events, k - 1);
            let i = choose|i: int| 0 <= i < k - 1 && #[trigger] opens_top_level(events, i);
            assert(opens_top_level(events, i));
        } else {
            assert(opens_top_level(events, k - 1));
        }
    }
}

/// Law: an accepted stream opens exactly one element at the top level, and
/// that element is `oMath` in the Office Math namespace.
pub proof fn law_single_math_root(events: Seq<EventView>)
    requires
        is_accepted_stream(events),
    ensures
        exists|i: int| 0 <= i < events.len() && #[trigger] opens_top_level(events, i),
        forall|i: int, j: int|
            0 <= i < events.len() && 0 <= j < events.len() && #[trigger] opens_top_level(events, i)
                && #[trigger] opens_top_level(events, j) ==> i == j,
        forall|i: int|
            0 <= i < events.len() && #[trigger] opens_top_level(events, i) ==> is_math_root_name(
                opened_tag(events[i])->0.resolution,
                opened_tag(events[i])->0.local_name,
            ),
{
    let last = events.len() - 1;
    lemma_running_prefixes(events, last);
    assert(state_before(events, last).saw_root);
    lemma_saw_root_has_opener(events, last);
    assert forall|i: int, j: int|
        0 <= i < events.len() && 0 <= j < events.len() && #[trigger] opens_top_level(events, i)
            && #[trigger] opens_top_level(events, j) implies i == j by {
        if i < j {
            lemma_running_prefixes(events, i);
            lemma_running_prefixes(events, j);
            lemma_saw_root_stays(events, i + 1, j);
        } else if j < i {
            lemma_running_prefixes(events, i);
            lemma_running_prefixes(events, j);
            lemma_saw_root_stays(events, j + 1, i);
        }
    }
    assert forall|i: int|
        0 <= i < events.len() && #[trigger] opens_top_level(events, i) implies is_math_root_name(
        opened_tag(events[i])->0.resolution,
        opened_tag(events[i])->0.local_name,
    ) by {
        lemma_running_prefixes(events, i);
    }
}

/// Law: a stream that the scan accepts has a prefix that is an accepted
/// stream, ending at the event where the scan accepted; the laws on accepted
/// streams hold of that prefix.
pub proof fn law_accepted_scan_has_accepted_prefix(events: Seq<EventView>)
    requires
        scan_events(OmmlScanner::initial(), events) is Accepted,
    ensures
        exists|k: int| 0 < k <= events.len() && is_accepted_stream(#[trigger] events.take(k)),
    decreases events.len(),
{
    let init = OmmlScanner::initial();
    if events.len() > 0 {
        let rest = events.drop_last();
        assert(events =~= rest.push(events.last()));
        lemma_scan_push(init, rest, events.last());
        match scan_events(init, rest) {
            ScanOutcome::Accepted => {
                law_accepted_scan_has_accepted_prefix(rest);
                let k = choose|k: int| 0 < k <= rest.len() && is_accepted_stream(#[trigger] rest.take(k));
                assert(rest.take(k) =~= events.take(k));
            },
            _ => {
                assert(events.take(events.len() as int) =~= events);
            },
        }
    }
}

/// An end tag whose prefix resolves and whose name is a qualified name.
pub open spec fn end_ok(end: EndTagView) -> bool {
    !(end.resolution is Unknown) && is_qualified_name(end.name)
}

/// Law: inside the root element, every well-formed event continues the scan:
/// an empty-element tag leaves the state as it is, a start tag goes one level
/// deeper, an end tag one level up (closing the root when it ends it), and
/// character data, CDATA sections and references change nothing. Comments,
/// declarations, processing instructions, document types and read errors are
/// rejected wherever they occur.
pub proof fn law_scan_continues_inside_root(
    state: OmmlScanner,
    tag: TagView,
    end: EndTagView,
    text: Seq<u8>,
    reference: Seq<u8>,
)
    requires
        state.depth > 0,
    ensures
        tag_ok(tag) ==> state.step(EventView::Empty(tag)) == (state, ScanStep::Continue),
        tag_ok(tag) && state.depth < usize::MAX ==> state.step(EventView::Start(tag)).1
            == ScanStep::Continue && state.step(EventView::Start(tag)).0.depth == state.depth + 1
            && state.step(EventView::Start(tag)).0.saw_root == state.saw_root && state.step(
            EventView::Start(tag),
        ).0.closed_root == state.closed_root,
        end_ok(end) ==> state.step(EventView::End(end)).1 == ScanStep::Continue && state.step(
            EventView::End(end),
        ).0.depth == state.depth - 1 && state.step(EventView::End(end)).0.saw_root
            == state.saw_root && state.step(EventView::End(end)).0.closed_root == (
        state.closed_root || state.depth == 1),
        is_xml_character_data(text) && !holds_cdata_end(text) ==> state.step(EventView::Text(text))
            == (state, ScanStep::Continue),
        is_xml_character_data(text) ==> state.step(EventView::CData(text)) == (
            state,
            ScanStep::Continue,
        ),
        is_valid_reference(reference) ==> state.step(EventView::GeneralRef(reference)) == (
            state,
            ScanStep::Continue,
        ),
        state.step(EventView::Comment).1 == ScanStep::Reject,
        state.step(EventView::Declaration).1 == ScanStep::Reject,
        state.step(EventView::ProcessingInstruction).1 == ScanStep::Reject,
        state.step(EventView::DocType).1 == ScanStep::Reject,
        state.step(EventView::Error).1 == ScanStep::Reject,
{
}

/// Law: inside the root, an element written `<a/>` and the same element
/// written `<a></a>` leave the scan in the same state.
pub proof fn law_empty_element_same_as_start_end(
    state: OmmlScanner,
    tag: TagView,
    end: EndTagView,
)
    requires
        0 < state.depth < usize::MAX,
        tag_ok(tag),
        end_ok(end),
    ensures
        state.step(EventView::Empty(tag)) == (state, ScanStep::Continue),
        state.step(EventView::Start(tag)).1 == ScanStep::Continue,
        state.step(EventView::Start(tag)).0.step(EventView::End(end)) == (
            state,
            ScanStep::Continue,
        ),
{
}

/// Law: a fragment with an `oMath` root in the Office Math namespace holding
/// one well-formed empty element is accepted; so is the same fragment with
/// the nested element written as a start and an end tag.
pub proof fn law_nested_elements_accepted(
    root: TagView,
    child: TagView,
    child_end: EndTagView,
    root_end: EndTagView,
)
    requires
        tag_ok(root),
        is_math_root_name(root.resolution, root.local_name),
        tag_ok(child),
        end_ok(child_end),
        end_ok(root_end),
    ensures
        is_accepted_stream(
            seq![
                EventView::Start(root),
                EventView::Empty(child),
                EventView::End(root_end),
                EventView::Eof,
            ],
        ),
        is_accepted_stream(
            seq![
                EventView::Start(root),
                EventView::Start(child),
                EventView::End(child_end),
                EventView::End(root_end),
                EventView::Eof,
            ],
        ),
{
    let init = OmmlScanner::initial();
    let short = seq![
        EventView::Start(root),
        EventView::Empty(child),
        EventView::End(root_end),
        EventView::Eof,
    ];
    let long = seq![
        EventView::Start(root),
        EventView::Start(child),
        EventView::End(child_end),
        EventView::End(root_end),
        EventView::Eof,
    ];
    let opened = init.step(EventView::Start(root)).0;
    assert(opened == OmmlScanner { depth: 1, saw_root: true, closed_root: false });
    let s0 = Seq::<EventView>::empty();
    lemma_scan_push(init, s0, short[0]);
    assert(s0.push(short[0]) =~= short.take(1));
    lemma_scan_push(init, short.take(1), short[1]);
    assert(short.take(1).push(short[1]) =~= short.take(2));
    lemma_scan_push(init, short.take(2), short[2]);
    assert(short.take(2).push(short[2]) =~= short.take(3));
    assert(short.drop_last() =~= short.take(3));
    lemma_scan_push(init, s0, long[0]);
    assert(s0.push(long[0]) =~= long.take(1));
    lemma_scan_push(init, long.take(1), long[1]);
    assert(long.take(1).push(long[1]) =~= long.take(2));
    lemma_scan_push(init, long.take(2), long[2]);
    assert(long.take(2).push(long[2]) =~= long.take(3));
    lemma_scan_push(init, long.take(3), long[3]);
    assert(long.take(3).push(long[3]) =~= long.take(4));
    assert(long.drop_last() =~= long.take(4));
    assert(scan_events(init, s0) == ScanOutcome::Running(init));
}

} // verus!
