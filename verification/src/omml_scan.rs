//! The rules that an Office Math (OMML) fragment has to meet, stated over the
//! stream of XML events that a namespace-aware reader produces for it: one
//! `oMath` root in the Office Math namespace, well-formed names, attributes and
//! character data, and no comments, declarations, processing instructions or
//! document type definitions anywhere.
use vstd::prelude::*;
use vstd::string::StringSliceAdditionalSpecFns;
use crate::xml_rules::{
    contains_cdata_end, holds_cdata_end, is_qualified_name, is_valid_entity_reference,
    is_valid_qualified_name, is_valid_reference, is_valid_xml_characters, is_xml_character_data,
    is_xml_space, is_xml_whitespace, COLON,
};

verus! {

/// The namespace of Office Math Markup.
pub const MATH_NAMESPACE: &'static str = "http://schemas.openxmlformats.org/officeDocument/2006/math";

/// How the prefix of a name resolved against the namespace bindings in scope.
pub enum Resolution {
    /// No prefix and no default namespace.
    Unbound,
    /// Bound to this namespace name.
    Bound(Vec<u8>),
    /// The prefix is not bound.
    Unknown,
}

impl Resolution {
    /// The namespace name, empty when unbound.
    pub open spec fn namespace_bytes(self) -> Seq<u8> {
        match self {
            Resolution::Bound(namespace) => namespace@,
            _ => Seq::empty(),
        }
    }
}

/// One attribute of a start tag, as the reader gives it.
pub struct XmlAttribute {
    /// The qualified name as written.
    pub key: Vec<u8>,
    /// The value with references replaced and whitespace normalized (UTF-8),
    /// or `None` when it could not be decoded.
    pub value: Option<Vec<u8>>,
    /// How the prefix of the key resolves (unused for namespace bindings).
    pub resolution: Resolution,
    /// The local part of the key (unused for namespace bindings).
    pub local_name: Vec<u8>,
}

/// An attribute as the reader yields it: well formed or not.
pub enum AttributeItem {
    Malformed,
    Parsed(XmlAttribute),
}

/// A start tag or an empty-element tag.
pub struct ElementTag {
    pub resolution: Resolution,
    pub name: Vec<u8>,
    pub local_name: Vec<u8>,
    pub attributes: Vec<AttributeItem>,
}

/// An end tag.
pub struct EndTag {
    pub resolution: Resolution,
    pub name: Vec<u8>,
}

/// The events of an XML reader.
pub enum XmlEvent {
    Start(ElementTag),
    Empty(ElementTag),
    End(EndTag),
    Text(Vec<u8>),
    CData(Vec<u8>),
    GeneralRef(Vec<u8>),
    Comment,
    Declaration,
    ProcessingInstruction,
    DocType,
    Eof,
}

// ---------------------------------------------------------------------------
// What the events say, as mathematical values
// ---------------------------------------------------------------------------

/// How a prefix resolved, as a value.
pub enum NameResolution {
    Unbound,
    Bound(Seq<u8>),
    Unknown,
}

impl NameResolution {
    /// The namespace name, empty when unbound.
    pub open spec fn namespace_bytes(self) -> Seq<u8> {
        match self {
            NameResolution::Bound(namespace) => namespace,
            _ => Seq::empty(),
        }
    }
}

/// An attribute, as a value.
pub struct AttributeView {
    pub key: Seq<u8>,
    pub value: Option<Seq<u8>>,
    pub resolution: NameResolution,
    pub local_name: Seq<u8>,
}

/// An attribute as the reader yields it, as a value.
pub enum AttributeItemView {
    Malformed,
    Parsed(AttributeView),
}

/// A start or empty-element tag, as a value.
pub struct TagView {
    pub resolution: NameResolution,
    pub name: Seq<u8>,
    pub local_name: Seq<u8>,
    pub attributes: Seq<AttributeItemView>,
}

/// An end tag, as a value.
pub struct EndTagView {
    pub resolution: NameResolution,
    pub name: Seq<u8>,
}

/// What the reader gives at one step, as a value: an event, or `Error` when
/// reading failed.
pub enum EventView {
    Start(TagView),
    Empty(TagView),
    End(EndTagView),
    Text(Seq<u8>),
    CData(Seq<u8>),
    GeneralRef(Seq<u8>),
    Comment,
    Declaration,
    ProcessingInstruction,
    DocType,
    Eof,
    Error,
}

impl View for Resolution {
    type V = NameResolution;

    open spec fn view(&self) -> NameResolution {
        match self {
            Resolution::Unbound => NameResolution::Unbound,
            Resolution::Bound(namespace) => NameResolution::Bound(namespace@),
            Resolution::Unknown => NameResolution::Unknown,
        }
    }
}

impl View for XmlAttribute {
    type V = AttributeView;

    open spec fn view(&self) -> AttributeView {
        AttributeView {
            key: self.key@,
            value: match &self.value {
                Some(value) => Some(value@),
                None => None,
            },
            resolution: self.resolution@,
            local_name: self.local_name@,
        }
    }
}

impl View for AttributeItem {
    type V = AttributeItemView;

    open spec fn view(&self) -> AttributeItemView {
        match self {
            AttributeItem::Malformed => AttributeItemView::Malformed,
            AttributeItem::Parsed(attribute) => AttributeItemView::Parsed(attribute@),
        }
    }
}

/// The values of a list of attribute items.
pub open spec fn item_views(items: Seq<AttributeItem>) -> Seq<AttributeItemView> {
    items.map_values(|item: AttributeItem| item@)
}

impl View for ElementTag {
    type V = TagView;

    open spec fn view(&self) -> TagView {
        TagView {
            resolution: self.resolution@,
            name: self.name@,
            local_name: self.local_name@,
            attributes: item_views(self.attributes@),
        }
    }
}

impl View for EndTag {
    type V = EndTagView;

    open spec fn view(&self) -> EndTagView {
        EndTagView { resolution: self.resolution@, name: self.name@ }
    }
}

impl View for XmlEvent {
    type V = EventView;

    open spec fn view(&self) -> EventView {
        match self {
            XmlEvent::Start(tag) => EventView::Start(tag@),
            XmlEvent::Empty(tag) => EventView::Empty(tag@),
            XmlEvent::End(tag) => EventView::End(tag@),
            XmlEvent::Text(text) => EventView::Text(text@),
            XmlEvent::CData(data) => EventView::CData(data@),
            XmlEvent::GeneralRef(reference) => EventView::GeneralRef(reference@),
            XmlEvent::Comment => EventView::Comment,
            XmlEvent::Declaration => EventView::Declaration,
            XmlEvent::ProcessingInstruction => EventView::ProcessingInstruction,
            XmlEvent::DocType => EventView::DocType,
            XmlEvent::Eof => EventView::Eof,
        }
    }
}

/// The values of a list of events.
pub open spec fn event_views(events: Seq<XmlEvent>) -> Seq<EventView> {
    events.map_values(|event: XmlEvent| event@)
}

// ---------------------------------------------------------------------------
// Attributes
// ---------------------------------------------------------------------------

/// `xmlns` as ASCII bytes.
pub open spec fn xmlns_bytes() -> Seq<u8> {
    seq![0x78u8, 0x6du8, 0x6cu8, 0x6eu8, 0x73u8]
}

/// A key of the form `xmlns:...`.
pub open spec fn is_prefixed_binding(key: Seq<u8>) -> bool {
    key.len() >= 6 && key.take(5) == xmlns_bytes() && key[5] == COLON
}

/// A key that declares a namespace: `xmlns` or `xmlns:...`.
pub open spec fn is_namespace_binding(key: Seq<u8>) -> bool {
    key == xmlns_bytes() || is_prefixed_binding(key)
}

/// What one attribute must meet on its own.
pub open spec fn attribute_ok(item: AttributeItemView) -> bool {
    match item {
        AttributeItemView::Malformed => false,
        AttributeItemView::Parsed(a) => {
            &&& is_qualified_name(a.key)
            &&& a.value is Some
            &&& is_xml_character_data(a.value->0)
            &&& if is_namespace_binding(a.key) {
                !(is_prefixed_binding(a.key) && a.value->0.len() == 0)
            } else {
                !(a.resolution is Unknown)
            }
        },
    }
}

/// The expanded name (namespace, local name) of an attribute that is no
/// namespace binding; `None` for bindings and malformed attributes.
pub open spec fn expanded_name(item: AttributeItemView) -> Option<(Seq<u8>, Seq<u8>)> {
    match item {
        AttributeItemView::Parsed(a) => if is_namespace_binding(a.key) {
            None
        } else {
            Some((a.resolution.namespace_bytes(), a.local_name))
        },
        AttributeItemView::Malformed => None,
    }
}

/// Every attribute is well formed, and no two attributes share an expanded name.
pub open spec fn attributes_valid(items: Seq<AttributeItemView>) -> bool {
    &&& forall|i: int| 0 <= i < items.len() ==> #[trigger] attribute_ok(items[i])
    &&& forall|i: int, j: int|
        0 <= i < j < items.len() && (#[trigger] expanded_name(items[i])) is Some
            && (#[trigger] expanded_name(items[j])) is Some ==> expanded_name(items[i])
            != expanded_name(items[j])
}

fn bytes_equal(a: &[u8], b: &[u8]) -> (r: bool)
    ensures
        r == (a@ == b@),
{
    if a.len() != b.len() {
        return false;
    }
    let mut i: usize = 0;
    while i < a.len()
        invariant
            a@.len() == b@.len(),
            i <= a@.len(),
            forall|k: int| 0 <= k < i ==> a@[k] == b@[k],
        decreases a@.len() - i,
    {
        if a[i] != b[i] {
            return false;
        }
        i = i + 1;
    }
    assert(a@ =~= b@);
    true
}

/// Whether a key is a namespace binding (`xmlns` or `xmlns:...`), and whether
/// it has the prefixed form.
pub(crate) fn binding_kind(key: &[u8]) -> (r: (bool, bool))
    ensures
        r.0 == is_namespace_binding(key@),
        r.1 == is_prefixed_binding(key@),
{
    let len: usize = key.len();
    let starts = len >= 5 && key[0] == 0x78 && key[1] == 0x6d && key[2] == 0x6c && key[3] == 0x6e
        && key[4] == 0x73;
    proof {
        if len >= 5 {
            if starts {
                assert(key@.take(5) =~= xmlns_bytes());
            } else {
                assert(key@.take(5) != xmlns_bytes() && key@ != xmlns_bytes()) by {
                    if key@.take(5) == xmlns_bytes() {
                        assert(key@.take(5)[0] == key@[0]);
                        assert(key@.take(5)[1] == key@[1]);
                        assert(key@.take(5)[2] == key@[2]);
                        assert(key@.take(5)[3] == key@[3]);
                        assert(key@.take(5)[4] == key@[4]);
                    }
                    if key@ == xmlns_bytes() {
                        assert(key@[0] == 0x78u8);
                    }
                }
            }
        } else {
            assert(key@.len() != xmlns_bytes().len());
        }
    }
    let exact = starts && len == 5;
    let prefixed = starts && len >= 6 && key[5] == COLON;
    proof {
        if exact {
            assert(key@ =~= xmlns_bytes());
        }
        if starts && len > 5 {
            assert(key@ != xmlns_bytes());
        }
    }
    (exact || prefixed, prefixed)
}

/// Whether two attributes have the same namespace name (empty when unbound)
/// and the same local name.
fn same_expanded_name(a: &XmlAttribute, b: &XmlAttribute) -> (r: bool)
    ensures
        r == ((a.resolution.namespace_bytes(), a.local_name@) == (
        b.resolution.namespace_bytes(), b.local_name@)),
{
    let empty: Vec<u8> = Vec::new();
    let na: &[u8] = match &a.resolution {
        Resolution::Bound(n) => n.as_slice(),
        _ => empty.as_slice(),
    };
    let nb: &[u8] = match &b.resolution {
        Resolution::Bound(n) => n.as_slice(),
        _ => empty.as_slice(),
    };
    bytes_equal(na, nb) && bytes_equal(a.local_name.as_slice(), b.local_name.as_slice())
}

fn check_attribute(item: &AttributeItem) -> (r: bool)
    ensures
        r == attribute_ok(item@),
{
    match item {
        AttributeItem::Malformed => false,
        AttributeItem::Parsed(a) => {
            if !is_valid_qualified_name(a.key.as_slice()) {
                return false;
            }
            let value = match &a.value {
                None => {
                    return false;
                },
                Some(v) => v,
            };
            if !is_valid_xml_characters(value.as_slice()) {
                return false;
            }
            let (binding, prefixed) = binding_kind(a.key.as_slice());
            if binding {
                !(prefixed && value.len() == 0)
            } else {
                match a.resolution {
                    Resolution::Unknown => false,
                    _ => true,
                }
            }
        },
    }
}

pub fn attributes_are_valid(items: &Vec<AttributeItem>) -> (r: bool)
    ensures
        r == attributes_valid(item_views(items@)),
{
    let ghost views = item_views(items@);
    let n: usize = items.len();
    let mut i: usize = 0;
    while i < n
        invariant
            n == items@.len() == views.len(),
            views == item_views(items@),
            i <= n,
            forall|k: int| 0 <= k < i ==> #[trigger] attribute_ok(views[k]),
            forall|k: int, l: int|
                0 <= k < l < i && (#[trigger] expanded_name(views[k])) is Some && (
                #[trigger] expanded_name(views[l])) is Some ==> expanded_name(views[k])
                    != expanded_name(views[l]),
        decreases n - i,
    {
        assert(views[i as int] == items@[i as int]@);
        if !check_attribute(&items[i]) {
            return false;
        }
        if let AttributeItem::Parsed(a) = &items[i] {
            let (binding, _) = binding_kind(a.key.as_slice());
            if !binding {
                let mut j: usize = 0;
                while j < i
                    invariant
                        n == items@.len() == views.len(),
                        views == item_views(items@),
                        j <= i < n,
                        views[i as int] == AttributeItemView::Parsed(a@),
                        !is_namespace_binding(a.key@),
                        forall|k: int|
                            0 <= k < j && (#[trigger] expanded_name(views[k])) is Some
                                ==> expanded_name(views[k]) != expanded_name(views[i as int]),
                    decreases i - j,
                {
                    assert(views[j as int] == items@[j as int]@);
                    if let AttributeItem::Parsed(b) = &items[j] {
                        let (other_binding, _) = binding_kind(b.key.as_slice());
                        if !other_binding && same_expanded_name(b, a) {
                            assert(expanded_name(views[j as int]) == expanded_name(
                                views[i as int],
                            ));
                            return false;
                        }
                    }
                    j = j + 1;
                }
            }
        }
        i = i + 1;
    }
    true
}

// ---------------------------------------------------------------------------
// The scan
// ---------------------------------------------------------------------------

/// `oMath` as ASCII bytes.
pub open spec fn omath_bytes() -> Seq<u8> {
    seq![0x6fu8, 0x4du8, 0x61u8, 0x74u8, 0x68u8]
}

/// An element in the Office Math namespace whose local name is `oMath`.
pub open spec fn is_math_root_name(resolution: NameResolution, local_name: Seq<u8>) -> bool {
    &&& !(resolution is Unknown)
    &&& resolution.namespace_bytes() == MATH_NAMESPACE.spec_bytes()
    &&& local_name == omath_bytes()
}

/// A start or empty-element tag whose prefix resolves and whose name and
/// attributes are well formed.
pub open spec fn tag_ok(tag: TagView) -> bool {
    &&& !(tag.resolution is Unknown)
    &&& is_qualified_name(tag.name)
    &&& attributes_valid(tag.attributes)
}

/// What the scan decides after one event.
#[derive(PartialEq, Eq, Structural, Clone, Copy)]
pub enum ScanStep {
    Continue,
    Accept,
    Reject,
}

/// The state of the scan: element depth, whether the root was opened, and
/// whether it was closed.
#[derive(PartialEq, Eq, Structural, Clone, Copy)]
pub struct OmmlScanner {
    pub depth: usize,
    pub saw_root: bool,
    pub closed_root: bool,
}

impl OmmlScanner {
    pub open spec fn initial() -> OmmlScanner {
        OmmlScanner { depth: 0, saw_root: false, closed_root: false }
    }

    /// The next state and the decision for one event.
    pub open spec fn step(self, event: EventView) -> (OmmlScanner, ScanStep) {
        match event {
            EventView::Start(tag) => if !tag_ok(tag) {
                (self, ScanStep::Reject)
            } else if self.depth == 0 && (self.saw_root || self.closed_root || !is_math_root_name(
                tag.resolution,
                tag.local_name,
            )) {
                (self, ScanStep::Reject)
            } else {
                (
                    OmmlScanner {
                        depth: (self.depth + 1) as usize,
                        saw_root: self.saw_root || self.depth == 0,
                        closed_root: self.closed_root,
                    },
                    ScanStep::Continue,
                )
            },
            EventView::Empty(tag) => if !tag_ok(tag) {
                (self, ScanStep::Reject)
            } else if self.depth == 0 {
                if self.saw_root || self.closed_root || !is_math_root_name(
                    tag.resolution,
                    tag.local_name,
                ) {
                    (self, ScanStep::Reject)
                } else {
                    (
                        OmmlScanner { depth: 0, saw_root: true, closed_root: true },
                        ScanStep::Continue,
                    )
                }
            } else {
                (self, ScanStep::Continue)
            },
            EventView::End(tag) => if tag.resolution is Unknown || self.depth == 0
                || !is_qualified_name(tag.name) {
                (self, ScanStep::Reject)
            } else {
                (
                    OmmlScanner {
                        depth: (self.depth - 1) as usize,
                        saw_root: self.saw_root,
                        closed_root: self.closed_root || self.depth == 1,
                    },
                    ScanStep::Continue,
                )
            },
            EventView::Text(text) => if !is_xml_character_data(text) || holds_cdata_end(text) || (
            self.depth == 0 && !is_xml_space(text)) {
                (self, ScanStep::Reject)
            } else {
                (self, ScanStep::Continue)
            },
            EventView::CData(data) => if self.depth == 0 || !is_xml_character_data(data) {
                (self, ScanStep::Reject)
            } else {
                (self, ScanStep::Continue)
            },
            EventView::GeneralRef(reference) => if self.depth == 0 || !is_valid_reference(
                reference,
            ) {
                (self, ScanStep::Reject)
            } else {
                (self, ScanStep::Continue)
            },
            EventView::Eof => if self.saw_root && self.closed_root && self.depth == 0 {
                (self, ScanStep::Accept)
            } else {
                (self, ScanStep::Reject)
            },
            _ => (self, ScanStep::Reject),
        }
    }

    /// The scan starts at depth 0 with no root seen.
    pub fn new() -> (scanner: OmmlScanner)
        ensures
            scanner == OmmlScanner::initial(),
    {
        OmmlScanner { depth: 0, saw_root: false, closed_root: false }
    }

    /// Takes in one event and says whether the fragment is still acceptable
    /// (`Continue`), accepted (`Accept`, at the end of input) or rejected.
    pub fn feed(&mut self, event: &XmlEvent) -> (r: ScanStep)
        requires
            old(self).depth < usize::MAX || !(event is Start),
        ensures
            (*final(self), r) == old(self).step(event@),
    {
        match event {
            XmlEvent::Start(tag) => {
                if !tag_is_valid(tag) {
                    return ScanStep::Reject;
                }
                if self.depth == 0 {
                    if self.saw_root || self.closed_root || !is_math_root(
                        &tag.resolution,
                        tag.local_name.as_slice(),
                    ) {
                        return ScanStep::Reject;
                    }
                    self.saw_root = true;
                }
                self.depth = self.depth + 1;
                ScanStep::Continue
            },
            XmlEvent::Empty(tag) => {
                if !tag_is_valid(tag) {
                    return ScanStep::Reject;
                }
                if self.depth == 0 {
                    if self.saw_root || self.closed_root || !is_math_root(
                        &tag.resolution,
                        tag.local_name.as_slice(),
                    ) {
                        return ScanStep::Reject;
                    }
                    self.saw_root = true;
                    self.closed_root = true;
                }
                ScanStep::Continue
            },
            XmlEvent::End(tag) => {
                let unknown = match tag.resolution {
                    Resolution::Unknown => true,
                    _ => false,
                };
                if unknown || self.depth == 0 || !is_valid_qualified_name(tag.name.as_slice()) {
                    return ScanStep::Reject;
                }
                self.depth = self.depth - 1;
                if self.depth == 0 {
                    self.closed_root = true;
                }
                ScanStep::Continue
            },
            XmlEvent::Text(text) => {
                if !is_valid_xml_characters(text.as_slice()) || contains_cdata_end(
                    text.as_slice(),
                ) {
                    return ScanStep::Reject;
                }
                if self.depth == 0 && !is_xml_whitespace(text.as_slice()) {
                    return ScanStep::Reject;
                }
                ScanStep::Continue
            },
            XmlEvent::CData(data) => {
                if self.depth == 0 || !is_valid_xml_characters(data.as_slice()) {
                    return ScanStep::Reject;
                }
                ScanStep::Continue
            },
            XmlEvent::GeneralRef(reference) => {
                if self.depth == 0 || !is_valid_entity_reference(reference.as_slice()) {
                    return ScanStep::Reject;
                }
                ScanStep::Continue
            },
            XmlEvent::Eof => {
                if self.saw_root && self.closed_root && self.depth == 0 {
                    ScanStep::Accept
                } else {
                    ScanStep::Reject
                }
            },
            _ => ScanStep::Reject,
        }
    }
}

fn tag_is_valid(tag: &ElementTag) -> (r: bool)
    ensures
        r == tag_ok(tag@),
{
    let unknown = match tag.resolution {
        Resolution::Unknown => true,
        _ => false,
    };
    !unknown && is_valid_qualified_name(tag.name.as_slice()) && attributes_are_valid(
        &tag.attributes,
    )
}

/// Whether a resolved element name is the `oMath` root of Office Math.
pub fn is_math_root(resolution: &Resolution, local_name: &[u8]) -> (r: bool)
    ensures
        r == is_math_root_name(resolution@, local_name@),
{
    let empty: Vec<u8> = Vec::new();
    let namespace: &[u8] = match resolution {
        Resolution::Unknown => {
            return false;
        },
        Resolution::Unbound => empty.as_slice(),
        Resolution::Bound(n) => n.as_slice(),
    };
    let same_namespace = bytes_equal(namespace, MATH_NAMESPACE.as_bytes());
    let omath = local_name.len() == 5 && local_name[0] == 0x6f && local_name[1] == 0x4d
        && local_name[2] == 0x61 && local_name[3] == 0x74 && local_name[4] == 0x68;
    proof {
        if omath {
            assert(local_name@ =~= omath_bytes());
        } else if local_name@ == omath_bytes() {
            assert(local_name@[0] == 0x6fu8);
        }
    }
    same_namespace && omath
}

/// Law: the root must resolve to exactly the Office Math namespace and have
/// the local name `oMath`.
pub proof fn law_math_root_name(resolution: NameResolution, local_name: Seq<u8>)
    ensures
        MATH_NAMESPACE@ == "http://schemas.openxmlformats.org/officeDocument/2006/math"@,
        is_math_root_name(resolution, local_name) == (resolution matches NameResolution::Bound(
            namespace,
        ) && namespace == MATH_NAMESPACE.spec_bytes() && local_name == seq![
            0x6fu8,
            0x4du8,
            0x61u8,
            0x74u8,
            0x68u8,
        ]),
{
    assert(NameResolution::Unbound.namespace_bytes().len() == 0);
    assert(MATH_NAMESPACE.spec_bytes().len() > 0) by {
        reveal_strlit("http://schemas.openxmlformats.org/officeDocument/2006/math");
        assert(MATH_NAMESPACE@.len() > 0);
        assert(vstd::utf8::encode_utf8(MATH_NAMESPACE@).len() > 0) by {
            assert(vstd::utf8::encode_utf8(MATH_NAMESPACE@) == vstd::utf8::encode_scalar(
                MATH_NAMESPACE@[0] as u32,
            ) + vstd::utf8::encode_utf8(MATH_NAMESPACE@.drop_first()));
        }
    }
}

/// Law: attributes are checked one by one and against each other. A
/// malformed attribute, a key that is no qualified name, a value that could
/// not be decoded or holds a non-XML character, a prefixed namespace binding
/// with an empty value, and an unresolved prefix are each rejected, as are two
/// attributes with the same namespace and local name. A single well-formed
/// attribute whose prefix resolves is accepted.
pub proof fn law_attribute_checks(a: AttributeView, b: AttributeView)
    ensures
        !attributes_valid(seq![AttributeItemView::Malformed]),
        !is_qualified_name(a.key) ==> !attributes_valid(seq![AttributeItemView::Parsed(a)]),
        a.value is None ==> !attributes_valid(seq![AttributeItemView::Parsed(a)]),
        a.value is Some && !is_xml_character_data(a.value->0) ==> !attributes_valid(
            seq![AttributeItemView::Parsed(a)],
        ),
        is_prefixed_binding(a.key) && a.value == Some(Seq::<u8>::empty()) ==> !attributes_valid(
            seq![AttributeItemView::Parsed(a)],
        ),
        !is_namespace_binding(a.key) && a.resolution is Unknown ==> !attributes_valid(
            seq![AttributeItemView::Parsed(a)],
        ),
        !is_namespace_binding(a.key) && !is_namespace_binding(b.key)
            && a.resolution.namespace_bytes() == b.resolution.namespace_bytes() && a.local_name
            == b.local_name ==> !attributes_valid(
            seq![AttributeItemView::Parsed(a), AttributeItemView::Parsed(b)],
        ),
        is_qualified_name(a.key) && a.value is Some && is_xml_character_data(a.value->0)
            && !is_namespace_binding(a.key) && !(a.resolution is Unknown) ==> attributes_valid(
            seq![AttributeItemView::Parsed(a)],
        ),
        attributes_valid(Seq::empty()),
{
    let one = seq![AttributeItemView::Parsed(a)];
    assert(one[0] == AttributeItemView::Parsed(a));
    let two = seq![AttributeItemView::Parsed(a), AttributeItemView::Parsed(b)];
    assert(two[0] == AttributeItemView::Parsed(a));
    assert(two[1] == AttributeItemView::Parsed(b));
    assert(seq![AttributeItemView::Malformed][0] == AttributeItemView::Malformed);
    assert(!attribute_ok(seq![AttributeItemView::Malformed][0]));
    if !attribute_ok(AttributeItemView::Parsed(a)) {
        assert(!attribute_ok(one[0]));
    }
    if !is_namespace_binding(a.key) && !is_namespace_binding(b.key)
        && a.resolution.namespace_bytes() == b.resolution.namespace_bytes() && a.local_name
        == b.local_name {
        assert(expanded_name(two[0]) is Some && expanded_name(two[1]) is Some);
    }
}

} // verus!
