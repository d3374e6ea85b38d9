use equation_exporter::xml_rules::{
    contains_cdata_end, is_ascii_xml_name_char, is_ascii_xml_name_start,
    is_valid_entity_reference, is_valid_qualified_name, is_valid_xml_character,
    is_valid_xml_characters, is_valid_xml_name_part, is_xml_whitespace,
};

#[test]
fn name_start_and_name_bytes() {
    assert!(is_ascii_xml_name_start(b'a'));
    assert!(is_ascii_xml_name_start(b'Z'));
    assert!(is_ascii_xml_name_start(b'_'));
    assert!(!is_ascii_xml_name_start(b'1'));
    assert!(!is_ascii_xml_name_start(b'-'));
    assert!(is_ascii_xml_name_char(b'1'));
    assert!(is_ascii_xml_name_char(b'-'));
    assert!(is_ascii_xml_name_char(b'.'));
    assert!(!is_ascii_xml_name_char(b':'));
    assert!(!is_ascii_xml_name_char(b'&'));
}

#[test]
fn name_parts() {
    assert!(is_valid_xml_name_part(b"oMath"));
    assert!(is_valid_xml_name_part(b"_a-1.b"));
    assert!(!is_valid_xml_name_part(b""));
    assert!(!is_valid_xml_name_part(b"1a"));
    assert!(!is_valid_xml_name_part(b"a:b"));
}

#[test]
fn qualified_names_have_at_most_one_colon() {
    assert!(is_valid_qualified_name(b"m:oMath"));
    assert!(is_valid_qualified_name(b"oMath"));
    assert!(!is_valid_qualified_name(b"m:r:bad"));
    assert!(!is_valid_qualified_name(b"m:"));
    assert!(!is_valid_qualified_name(b":m"));
    assert!(!is_valid_qualified_name(b""));
    assert!(!is_valid_qualified_name(b"1:oMath"));
    assert!(!is_valid_qualified_name(b"bad&name"));
}

#[test]
fn xml_characters() {
    assert!(is_valid_xml_character('\t'));
    assert!(is_valid_xml_character('x'));
    assert!(is_valid_xml_character('\u{10FFFF}'));
    assert!(!is_valid_xml_character('\u{0}'));
    assert!(!is_valid_xml_character('\u{1F}'));
    assert!(!is_valid_xml_character('\u{FFFE}'));
    assert!(is_valid_xml_characters("黑风 x".as_bytes()));
    assert!(!is_valid_xml_characters(&[0x66, 0xFF]));
    assert!(!is_valid_xml_characters(&[0x01]));
}

#[test]
fn whitespace_and_cdata_end() {
    assert!(is_xml_whitespace(b" \t\r\n"));
    assert!(is_xml_whitespace(b""));
    assert!(!is_xml_whitespace(b" x "));
    assert!(contains_cdata_end(b"bad]]>"));
    assert!(contains_cdata_end(b"]]>"));
    assert!(!contains_cdata_end(b"]] >"));
    assert!(!contains_cdata_end(b"]]"));
}

#[test]
fn entity_references() {
    for name in [&b"lt"[..], b"gt", b"amp", b"apos", b"quot"] {
        assert!(is_valid_entity_reference(name));
    }
    assert!(!is_valid_entity_reference(b"nbsp"));
    assert!(!is_valid_entity_reference(b""));
    assert!(is_valid_entity_reference(b"#65"));
    assert!(is_valid_entity_reference(b"#x41"));
    assert!(is_valid_entity_reference(b"#X3b1"));
    assert!(is_valid_entity_reference(b"#x+41"));
    assert!(!is_valid_entity_reference(b"#+65"));
    assert!(!is_valid_entity_reference(b"#"));
    assert!(!is_valid_entity_reference(b"#x"));
    assert!(!is_valid_entity_reference(b"#x+"));
    assert!(!is_valid_entity_reference(b"#0"));
    assert!(!is_valid_entity_reference(b"#xD800"));
    assert!(!is_valid_entity_reference(b"#x110000"));
    assert!(!is_valid_entity_reference(b"#99999999999999999999"));
    assert!(is_valid_entity_reference(b"#0000000000000000065"));
    assert!(!is_valid_entity_reference(b"#6a"));
}

fn reference_xml_character(character: char) -> bool {
    matches!(character, '\u{9}' | '\u{A}' | '\u{D}')
        || ('\u{20}'..='\u{D7FF}').contains(&character)
        || ('\u{E000}'..='\u{FFFD}').contains(&character)
        || ('\u{10000}'..='\u{10FFFF}').contains(&character)
}

fn reference_entity_reference(reference: &[u8]) -> bool {
    match reference {
        b"lt" | b"gt" | b"amp" | b"apos" | b"quot" => true,
        reference if reference.starts_with(b"#") => {
            let number = if reference.starts_with(b"#x") || reference.starts_with(b"#X") {
                std::str::from_utf8(&reference[2..])
                    .ok()
                    .and_then(|number| u32::from_str_radix(number, 16).ok())
            } else if reference[1..].iter().all(u8::is_ascii_digit) {
                std::str::from_utf8(&reference[1..])
                    .ok()
                    .and_then(|number| number.parse::<u32>().ok())
            } else {
                None
            };
            number
                .and_then(char::from_u32)
                .is_some_and(reference_xml_character)
        }
        _ => false,
    }
}

fn reference_qualified_name(name: &[u8]) -> bool {
    let part = |name: &[u8]| -> bool {
        match name.split_first() {
            None => false,
            Some((&first, rest)) => {
                is_ascii_xml_name_start(first) && rest.iter().copied().all(is_ascii_xml_name_char)
            }
        }
    };
    let mut parts = name.split(|byte| *byte == b':');
    let first = parts.next().unwrap_or_default();
    let second = parts.next();
    if parts.next().is_some() {
        return false;
    }
    match second {
        Some(local_name) => part(first) && part(local_name),
        None => part(first),
    }
}

#[test]
fn entity_references_agree_with_std_parsing() {
    let pieces: [&[u8]; 16] = [
        b"#", b"x", b"X", b"+", b"-", b"0", b"1", b"9", b"a", b"F", b"g", b"D800", b"10FFFF",
        b"110000", b"4294967296", b"\xC3\xA9",
    ];
    let mut count = 0;
    for a in pieces.iter() {
        for b in pieces.iter() {
            for c in pieces.iter() {
                let mut reference = Vec::new();
                reference.extend_from_slice(a);
                reference.extend_from_slice(b);
                reference.extend_from_slice(c);
                assert_eq!(
                    is_valid_entity_reference(&reference),
                    reference_entity_reference(&reference),
                    "{:?}",
                    String::from_utf8_lossy(&reference)
                );
                count += 1;
            }
        }
    }
    assert_eq!(count, 16 * 16 * 16);
}

#[test]
fn qualified_names_agree_with_splitting_on_colons() {
    let pieces: [&[u8]; 8] = [b"", b":", b"a", b"1", b"-", b"_b", b"&", b"x.y"];
    for a in pieces.iter() {
        for b in pieces.iter() {
            for c in pieces.iter() {
                for d in pieces.iter() {
                    let name = [*a, *b, *c, *d].concat();
                    assert_eq!(
                        is_valid_qualified_name(&name),
                        reference_qualified_name(&name),
                        "{:?}",
                        String::from_utf8_lossy(&name)
                    );
                }
            }
        }
    }
}

#[test]
fn character_data_agrees_with_std_decoding() {
    let samples: [&[u8]; 8] = [
        b"abc",
        b"\xE2\x82\xAC",
        b"\xED\xA0\x80",
        b"\xEF\xBF\xBE",
        b"\xF4\x8F\xBF\xBF",
        b"\xC0\x80",
        b"\x1B",
        b"\t\r\n",
    ];
    for a in samples.iter() {
        for b in samples.iter() {
            let value = [*a, *b].concat();
            let expected = std::str::from_utf8(&value)
                .map(|text| text.chars().all(reference_xml_character))
                .unwrap_or(false);
            assert_eq!(is_valid_xml_characters(&value), expected);
        }
    }
}
