use equation_exporter::omml_laws::omml_events_accepted;
use equation_exporter::omml_scan::{
    attributes_are_valid, is_math_root, AttributeItem, ElementTag, EndTag, OmmlScanner,
    Resolution, ScanStep, XmlAttribute, XmlEvent, MATH_NAMESPACE,
};
use equation_exporter::xml_source::is_valid_omml;

fn math() -> Resolution {
    Resolution::Bound(MATH_NAMESPACE.as_bytes().to_vec())
}

fn tag(resolution: Resolution, name: &str, attributes: Vec<AttributeItem>) -> ElementTag {
    let local_name = name.rsplit(':').next().unwrap().as_bytes().to_vec();
    ElementTag { resolution, name: name.as_bytes().to_vec(), local_name, attributes }
}

fn end(name: &str) -> XmlEvent {
    XmlEvent::End(EndTag { resolution: math(), name: name.as_bytes().to_vec() })
}

fn attribute(key: &str, value: &str, resolution: Resolution, local_name: &str) -> AttributeItem {
    AttributeItem::Parsed(XmlAttribute {
        key: key.as_bytes().to_vec(),
        value: Some(value.as_bytes().to_vec()),
        resolution,
        local_name: local_name.as_bytes().to_vec(),
    })
}

fn binding(key: &str, value: &str) -> AttributeItem {
    attribute(key, value, Resolution::Unbound, "")
}

#[test]
fn accepts_one_math_root_with_content() {
    let events = vec![
        XmlEvent::Start(tag(math(), "m:oMath", vec![binding("xmlns:m", MATH_NAMESPACE)])),
        XmlEvent::Start(tag(math(), "m:r", vec![])),
        XmlEvent::Text(b"x".to_vec()),
        XmlEvent::GeneralRef(b"#x3b1".to_vec()),
        end("m:r"),
        end("m:oMath"),
        XmlEvent::Text(b"\n".to_vec()),
        XmlEvent::Eof,
    ];
    assert!(omml_events_accepted(&events));
}

#[test]
fn accepts_an_empty_math_root() {
    let events = vec![XmlEvent::Empty(tag(math(), "m:oMath", vec![])), XmlEvent::Eof];
    assert!(omml_events_accepted(&events));
}

#[test]
fn rejects_a_second_root() {
    let events = vec![
        XmlEvent::Empty(tag(math(), "m:oMath", vec![])),
        XmlEvent::Empty(tag(math(), "m:oMath", vec![])),
        XmlEvent::Eof,
    ];
    assert!(!omml_events_accepted(&events));
}

#[test]
fn rejects_a_root_outside_the_math_namespace() {
    let events = vec![
        XmlEvent::Empty(tag(Resolution::Bound(b"urn:other".to_vec()), "m:oMath", vec![])),
        XmlEvent::Eof,
    ];
    assert!(!omml_events_accepted(&events));
    let events = vec![XmlEvent::Empty(tag(Resolution::Unbound, "oMath", vec![])), XmlEvent::Eof];
    assert!(!omml_events_accepted(&events));
}

#[test]
fn rejects_an_unclosed_root_and_a_stream_without_end() {
    let events = vec![XmlEvent::Start(tag(math(), "m:oMath", vec![])), XmlEvent::Eof];
    assert!(!omml_events_accepted(&events));
    let events = vec![XmlEvent::Empty(tag(math(), "m:oMath", vec![]))];
    assert!(!omml_events_accepted(&events));
    assert!(!omml_events_accepted(&vec![XmlEvent::Eof]));
}

#[test]
fn rejects_markup_other_than_elements() {
    for other in [
        XmlEvent::Comment,
        XmlEvent::Declaration,
        XmlEvent::ProcessingInstruction,
        XmlEvent::DocType,
    ] {
        let events = vec![
            XmlEvent::Start(tag(math(), "m:oMath", vec![])),
            other,
            end("m:oMath"),
            XmlEvent::Eof,
        ];
        assert!(!omml_events_accepted(&events));
    }
}

#[test]
fn rejects_text_and_references_outside_the_root() {
    let events = vec![
        XmlEvent::Text(b"x".to_vec()),
        XmlEvent::Empty(tag(math(), "m:oMath", vec![])),
        XmlEvent::Eof,
    ];
    assert!(!omml_events_accepted(&events));
    let events = vec![
        XmlEvent::Empty(tag(math(), "m:oMath", vec![])),
        XmlEvent::GeneralRef(b"amp".to_vec()),
        XmlEvent::Eof,
    ];
    assert!(!omml_events_accepted(&events));
    let events = vec![
        XmlEvent::Empty(tag(math(), "m:oMath", vec![])),
        XmlEvent::CData(b"x".to_vec()),
        XmlEvent::Eof,
    ];
    assert!(!omml_events_accepted(&events));
}

#[test]
fn the_events_after_the_decision_are_not_read() {
    let events = vec![
        XmlEvent::Empty(tag(math(), "m:oMath", vec![])),
        XmlEvent::Eof,
        XmlEvent::Comment,
    ];
    assert!(omml_events_accepted(&events));
}

#[test]
fn scanner_steps() {
    let mut scanner = OmmlScanner::new();
    assert!(scanner.feed(&XmlEvent::Start(tag(math(), "m:oMath", vec![]))) == ScanStep::Continue);
    assert_eq!(scanner.depth, 1);
    assert!(scanner.saw_root);
    assert!(scanner.feed(&end("m:oMath")) == ScanStep::Continue);
    assert_eq!(scanner.depth, 0);
    assert!(scanner.closed_root);
    assert!(scanner.feed(&end("m:oMath")) == ScanStep::Reject);
    assert!(scanner.feed(&XmlEvent::Eof) == ScanStep::Accept);
}

#[test]
fn attribute_rules() {
    assert!(attributes_are_valid(&vec![
        binding("xmlns:m", MATH_NAMESPACE),
        attribute("m:val", "1", math(), "val"),
        attribute("val", "2", Resolution::Unbound, "val"),
    ]));
    assert!(!attributes_are_valid(&vec![AttributeItem::Malformed]));
    assert!(!attributes_are_valid(&vec![binding("xmlns:m", "")]));
    assert!(attributes_are_valid(&vec![binding("xmlns", "")]));
    assert!(!attributes_are_valid(&vec![
        attribute("a:val", "1", math(), "val"),
        attribute("b:val", "2", math(), "val"),
    ]));
    assert!(!attributes_are_valid(&vec![attribute("p:val", "1", Resolution::Unknown, "val")]));
    assert!(!attributes_are_valid(&vec![attribute("a:b:c", "1", math(), "b:c")]));
    assert!(!attributes_are_valid(&vec![attribute("val", "\u{1}", Resolution::Unbound, "val")]));
    assert!(!attributes_are_valid(&vec![AttributeItem::Parsed(XmlAttribute {
        key: b"val".to_vec(),
        value: None,
        resolution: Resolution::Unbound,
        local_name: b"val".to_vec(),
    })]));
}

#[test]
fn math_root_names() {
    assert!(is_math_root(&math(), b"oMath"));
    assert!(!is_math_root(&math(), b"oMathPara"));
    assert!(!is_math_root(&Resolution::Unbound, b"oMath"));
    assert!(!is_math_root(&Resolution::Unknown, b"oMath"));
}

#[test]
fn validates_fragments_read_with_quick_xml() {
    let ns = MATH_NAMESPACE;
    assert!(is_valid_omml(&format!(r#"<m:oMath xmlns:m="{ns}"><m:r><m:t>a &lt; b &#x3b1;</m:t></m:r></m:oMath>"#)));
    assert!(is_valid_omml(&format!(r#"  <oMath xmlns="{ns}"/>  "#)));
    assert!(is_valid_omml(&format!(r#"<m:oMath xmlns:m="{ns}"><m:t><![CDATA[x < y]]></m:t></m:oMath>"#)));
    assert!(!is_valid_omml(&format!(r#"<m:oMath xmlns:m="{ns}"><m:t>&nbsp;</m:t></m:oMath>"#)));
    assert!(!is_valid_omml(&format!(r#"<m:oMath xmlns:m="{ns}" a="1" a="2"/>"#)));
    assert!(is_valid_omml(&format!(r#"<m:oMath xmlns:m="{ns}" xmlns:p="urn:p" m:v="1" p:v="2"/>"#)));
    assert!(!is_valid_omml(&format!(r#"<m:oMath xmlns:m="{ns}" xmlns:p="{ns}" m:v="1" p:v="2"/>"#)));
    assert!(!is_valid_omml(&format!(r#"<m:oMath xmlns:m="{ns}"><x:r/></m:oMath>"#)));
    assert!(!is_valid_omml(""));
    assert!(!is_valid_omml("x"));
    assert!(!is_valid_omml(&format!(r#"<!DOCTYPE m><m:oMath xmlns:m="{ns}"/>"#)));
}
