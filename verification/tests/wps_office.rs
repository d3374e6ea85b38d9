use equation_exporter::wps_office::document_from_omml;
use std::io::{Cursor, Read};
use zip::ZipArchive;

fn valid_omml() -> &'static str {
    r#"<m:oMath xmlns:m="http://schemas.openxmlformats.org/officeDocument/2006/math"><m:r><m:t>x</m:t></m:r></m:oMath>"#
}

#[test]
fn stores_a_native_office_math_element_in_word_document_xml() {
    let bytes = document_from_omml(
        r#"<m:oMath xmlns:m="http://schemas.openxmlformats.org/officeDocument/2006/math"><m:r><m:t>x</m:t></m:r></m:oMath>"#,
    )
    .unwrap();
    let mut archive = ZipArchive::new(Cursor::new(bytes)).unwrap();
    let mut document = String::new();
    archive
        .by_name("word/document.xml")
        .unwrap()
        .read_to_string(&mut document)
        .unwrap();
    assert!(document.contains("<m:oMath"));
    assert!(document.contains("<m:t>x</m:t>"));
    assert!(document.contains("<w:p><m:oMath"));
    assert!(!document.contains("<w:p><w:r><m:oMath"));
}

#[test]
fn accepts_an_office_math_root_with_a_different_prefix() {
    let bytes = document_from_omml(
        r#"<math:oMath xmlns:math="http://schemas.openxmlformats.org/officeDocument/2006/math"><math:r><math:t>x</math:t></math:r></math:oMath>"#,
    );
    assert!(bytes.is_ok());
}

#[test]
fn rejects_malformed_omml() {
    assert!(document_from_omml(
        r#"<m:oMath xmlns:m="http://schemas.openxmlformats.org/officeDocument/2006/math"><m:r></m:oMath>"#,
    )
    .is_err());
}

#[test]
fn rejects_cdata_end_sequence_in_character_data() {
    assert!(document_from_omml(
        r#"<m:oMath xmlns:m="http://schemas.openxmlformats.org/officeDocument/2006/math"><m:t>bad]]></m:t></m:oMath>"#,
    )
    .is_err());
}

#[test]
fn rejects_omml_that_is_not_one_office_math_root() {
    assert!(document_from_omml("<m:r/>").is_err());
}

#[test]
fn rejects_spoofed_math_namespace() {
    assert!(document_from_omml(
        r#"<m:oMath xmlns:m="http://schemas.openxmlformats.org/officeDocument/2006/math-spoof"><m:r/></m:oMath>"#,
    )
    .is_err());
}

#[test]
fn rejects_xml_declaration_before_omml_root() {
    assert!(document_from_omml(
        r#"<?xml version="1.0"?><m:oMath xmlns:m="http://schemas.openxmlformats.org/officeDocument/2006/math"/>"#,
    )
    .is_err());
}

#[test]
fn rejects_processing_instruction_before_omml_root() {
    assert!(document_from_omml(
        r#"<?instruction data?><m:oMath xmlns:m="http://schemas.openxmlformats.org/officeDocument/2006/math"/>"#,
    )
    .is_err());
}

#[test]
fn rejects_processing_instruction_inside_omml_fragment() {
    assert!(document_from_omml(
        r#"<m:oMath xmlns:m="http://schemas.openxmlformats.org/officeDocument/2006/math"><?instruction data?></m:oMath>"#,
    )
    .is_err());
}

#[test]
fn rejects_xml_processing_instruction_target_case_insensitively() {
    assert!(document_from_omml(
        r#"<?XML version="1.0"?><m:oMath xmlns:m="http://schemas.openxmlformats.org/officeDocument/2006/math"/>"#,
    )
    .is_err());
}

#[test]
fn rejects_xml_prefix_bound_to_a_different_namespace() {
    assert!(document_from_omml(
        r#"<m:oMath xmlns:m="http://schemas.openxmlformats.org/officeDocument/2006/math" xmlns:xml="urn:not-xml"/>"#,
    )
    .is_err());
}

#[test]
fn rejects_non_xml_prefix_bound_to_the_xml_namespace() {
    assert!(document_from_omml(
        r#"<m:oMath xmlns:m="http://schemas.openxmlformats.org/officeDocument/2006/math" xmlns:notxml="http://www.w3.org/XML/1998/namespace"/>"#,
    )
    .is_err());
}

#[test]
fn rejects_prefix_bound_to_the_xmlns_namespace() {
    assert!(document_from_omml(
        r#"<m:oMath xmlns:m="http://schemas.openxmlformats.org/officeDocument/2006/math" xmlns:notxml="http://www.w3.org/2000/xmlns/"/>"#,
    )
    .is_err());
}

#[test]
fn rejects_multiple_colons_in_element_names() {
    assert!(document_from_omml(
        r#"<m:oMath xmlns:m="http://schemas.openxmlformats.org/officeDocument/2006/math"><m:r:bad/></m:oMath>"#,
    )
    .is_err());
}

#[test]
fn rejects_multiple_colons_in_attribute_names() {
    assert!(document_from_omml(
        r#"<m:oMath xmlns:m="http://schemas.openxmlformats.org/officeDocument/2006/math" m:bad:name="x"/>"#,
    )
    .is_err());
}

#[test]
fn rejects_an_attribute_name_containing_ampersand() {
    assert!(document_from_omml(
        r#"<m:oMath xmlns:m="http://schemas.openxmlformats.org/officeDocument/2006/math" bad&name="x"/>"#,
    )
    .is_err());
}

#[test]
fn rejects_element_names_with_a_digit_prefix() {
    assert!(document_from_omml(
        r#"<1:oMath xmlns:1="http://schemas.openxmlformats.org/officeDocument/2006/math"/>"#,
    )
    .is_err());
}

#[test]
fn rejects_comments_before_the_omml_root() {
    assert!(document_from_omml(
        r#"<!--before--><m:oMath xmlns:m="http://schemas.openxmlformats.org/officeDocument/2006/math"/>"#,
    )
    .is_err());
}

#[test]
fn rejects_comments_inside_the_omml_root() {
    assert!(document_from_omml(
        r#"<m:oMath xmlns:m="http://schemas.openxmlformats.org/officeDocument/2006/math"><!--inside--></m:oMath>"#,
    )
    .is_err());
}

#[test]
fn rejects_comments_after_the_omml_root() {
    assert!(document_from_omml(
        r#"<m:oMath xmlns:m="http://schemas.openxmlformats.org/officeDocument/2006/math"/><!--after-->"#,
    )
    .is_err());
}

#[test]
fn rejects_comments_whose_body_ends_in_a_dash() {
    let omml = format!(
        "<!--comment--->{}",
        r#"<m:oMath xmlns:m="http://schemas.openxmlformats.org/officeDocument/2006/math"/>"#,
    );
    assert!(document_from_omml(&omml).is_err());
}

#[test]
fn preserves_a_valid_single_omml_root() {
    assert!(document_from_omml(valid_omml()).is_ok());
}

#[test]
fn rejects_multiple_roots_even_when_separated_by_whitespace() {
    assert!(document_from_omml(
        r#"<m:oMath xmlns:m="http://schemas.openxmlformats.org/officeDocument/2006/math"></m:oMath>   <m:oMath xmlns:m="http://schemas.openxmlformats.org/officeDocument/2006/math"></m:oMath>"#,
    )
    .is_err());
}

#[test]
fn writes_exactly_the_three_required_docx_parts() {
    let bytes = document_from_omml(
        r#"<m:oMath xmlns:m="http://schemas.openxmlformats.org/officeDocument/2006/math"><m:r><m:t>x</m:t></m:r></m:oMath>"#,
    )
    .unwrap();
    let mut archive = ZipArchive::new(Cursor::new(bytes)).unwrap();
    assert_eq!(archive.len(), 3);

    let mut names = (0..archive.len())
        .map(|index| archive.by_index(index).unwrap().name().unwrap().into_owned())
        .collect::<Vec<_>>();
    names.sort();
    assert_eq!(
        names,
        vec!["[Content_Types].xml", "_rels/.rels", "word/document.xml",]
    );

    let mut content_types = String::new();
    archive
        .by_name("[Content_Types].xml")
        .unwrap()
        .read_to_string(&mut content_types)
        .unwrap();
    assert_eq!(
        content_types,
        "<?xml version=\"1.0\" encoding=\"UTF-8\" standalone=\"yes\"?>\n<Types xmlns=\"http://schemas.openxmlformats.org/package/2006/content-types\"><Default Extension=\"rels\" ContentType=\"application/vnd.openxmlformats-package.relationships+xml\"/><Default Extension=\"xml\" ContentType=\"application/xml\"/><Override PartName=\"/word/document.xml\" ContentType=\"application/vnd.openxmlformats-officedocument.wordprocessingml.document.main+xml\"/></Types>"
    );

    let mut relationships = String::new();
    archive
        .by_name("_rels/.rels")
        .unwrap()
        .read_to_string(&mut relationships)
        .unwrap();
    assert_eq!(
        relationships,
        "<?xml version=\"1.0\" encoding=\"UTF-8\" standalone=\"yes\"?>\n<Relationships xmlns=\"http://schemas.openxmlformats.org/package/2006/relationships\"><Relationship Id=\"rId1\" Type=\"http://schemas.openxmlformats.org/officeDocument/2006/relationships/officeDocument\" Target=\"word/document.xml\"/></Relationships>"
    );
}

#[test]
fn an_invalid_fragment_gets_the_invalid_omml_answer() {
    assert_eq!(document_from_omml("<m:r/>").unwrap_err(), "无效的 OMML 公式");
    assert_eq!(
        equation_exporter::wps_office::document_for_verdict(valid_omml(), false).unwrap_err(),
        "无效的 OMML 公式"
    );
}

#[test]
fn the_document_part_wraps_the_formula_in_one_paragraph() {
    let document = equation_exporter::wps_office::document_xml("<m:oMath/>");
    assert_eq!(
        document,
        "<?xml version=\"1.0\" encoding=\"UTF-8\" standalone=\"yes\"?>\n<w:document xmlns:w=\"http://schemas.openxmlformats.org/wordprocessingml/2006/main\"><w:body><w:p><m:oMath/></w:p><w:sectPr/></w:body></w:document>"
    );
}

#[test]
fn the_archive_holds_the_document_part_unchanged() {
    let bytes = equation_exporter::wps_office::document_for_verdict(valid_omml(), true).unwrap();
    let mut archive = ZipArchive::new(Cursor::new(bytes)).unwrap();
    let mut document = String::new();
    archive
        .by_name("word/document.xml")
        .unwrap()
        .read_to_string(&mut document)
        .unwrap();
    assert_eq!(document, equation_exporter::wps_office::document_xml(valid_omml()));
    assert_eq!(archive.by_index(0).unwrap().compression(), zip::CompressionMethod::Deflated);
}
