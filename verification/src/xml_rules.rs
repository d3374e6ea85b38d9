//! Lexical rules of XML 1.0 that an Office Math fragment has to follow:
//! ASCII names, qualified names, character data and character references.
use vstd::prelude::*;
use vstd::slice::slice_subrange;
use vstd::string::StringSliceAdditionalSpecFns;
use vstd::utf8::*;

verus! {

broadcast use vstd::utf8::group_utf8_lib;

// ASCII bytes that the rules below name.
pub const CARRIAGE_RETURN: u8 = 0x0d;
pub const COLON: u8 = 0x3a;
pub const DIGIT_NINE: u8 = 0x39;
pub const DIGIT_ZERO: u8 = 0x30;
pub const FULL_STOP: u8 = 0x2e;
pub const GREATER_THAN: u8 = 0x3e;
pub const HASH: u8 = 0x23;
pub const HYPHEN: u8 = 0x2d;
pub const LINE_FEED: u8 = 0x0a;
pub const LOWER_A: u8 = 0x61;
pub const LOWER_F: u8 = 0x66;
pub const LOWER_X: u8 = 0x78;
pub const LOWER_Z: u8 = 0x7a;
pub const PLUS: u8 = 0x2b;
pub const RIGHT_BRACKET: u8 = 0x5d;
pub const SPACE: u8 = 0x20;
pub const TAB: u8 = 0x09;
pub const UNDERSCORE: u8 = 0x5f;
pub const UPPER_A: u8 = 0x41;
pub const UPPER_F: u8 = 0x46;
pub const UPPER_X: u8 = 0x58;
pub const UPPER_Z: u8 = 0x5a;

// ---------------------------------------------------------------------------
// Names
// ---------------------------------------------------------------------------

/// A byte that may start an (ASCII) XML name: a letter or `_`.
pub open spec fn is_name_start_byte(byte: u8) -> bool {
    (UPPER_A <= byte && byte <= UPPER_Z) || (LOWER_A <= byte && byte <= LOWER_Z) || byte == UNDERSCORE
}

/// A byte that may continue an (ASCII) XML name: a start byte, a digit, `-` or `.`.
pub open spec fn is_name_byte(byte: u8) -> bool {
    is_name_start_byte(byte) || (DIGIT_ZERO <= byte && byte <= DIGIT_NINE) || byte == HYPHEN || byte == FULL_STOP
}

/// A non-empty name made of a start byte followed by name bytes (no `:` in it).
pub open spec fn is_name_part(name: Seq<u8>) -> bool {
    &&& name.len() > 0
    &&& is_name_start_byte(name[0])
    &&& forall|i: int| 1 <= i < name.len() ==> #[trigger] is_name_byte(name[i])
}

/// A qualified name: either one name part, or two name parts joined by a single `:`.
pub open spec fn is_qualified_name(name: Seq<u8>) -> bool {
    ||| is_name_part(name)
    ||| exists|i: int|
        0 <= i < name.len() && name[i] == COLON && is_name_part(name.take(i)) && #[trigger] is_name_part(
            name.skip(i + 1),
        )
}

pub fn is_ascii_xml_name_start(byte: u8) -> (r: bool)
    ensures
        r == is_name_start_byte(byte),
{
    (UPPER_A <= byte && byte <= UPPER_Z) || (LOWER_A <= byte && byte <= LOWER_Z) || byte == UNDERSCORE
}

pub fn is_ascii_xml_name_char(byte: u8) -> (r: bool)
    ensures
        r == is_name_byte(byte),
{
    is_ascii_xml_name_start(byte) || (DIGIT_ZERO <= byte && byte <= DIGIT_NINE) || byte == HYPHEN || byte == FULL_STOP
}

/// Whether `name[start..end]` is a name part.
fn is_name_part_in(name: &[u8], start: usize, end: usize) -> (r: bool)
    requires
        start <= end <= name@.len(),
    ensures
        r == is_name_part(name@.subrange(start as int, end as int)),
{
    let ghost part = name@.subrange(start as int, end as int);
    if start == end {
        return false;
    }
    if !is_ascii_xml_name_start(name[start]) {
        assert(part[0] == name@[start as int]);
        return false;
    }
    let mut i: usize = start + 1;
    while i < end
        invariant
            start < i <= end <= name@.len(),
            part == name@.subrange(start as int, end as int),
            forall|k: int| 1 <= k < i - start ==> #[trigger] is_name_byte(part[k]),
        decreases end - i,
    {
        if !is_ascii_xml_name_char(name[i]) {
            assert(part[i - start] == name@[i as int]);
            assert(!is_name_byte(part[i - start]));
            return false;
        }
        assert(part[i - start] == name@[i as int]);
        i = i + 1;
    }
    true
}

pub fn is_valid_xml_name_part(name: &[u8]) -> (r: bool)
    ensures
        r == is_name_part(name@),
{
    assert(name@.subrange(0, name@.len() as int) =~= name@);
    is_name_part_in(name, 0, name.len())
}

/// A name part holds no `:`.
proof fn lemma_name_part_has_no_colon(name: Seq<u8>, i: int)
    requires
        is_name_part(name),
        0 <= i < name.len(),
    ensures
        name[i] != COLON,
{
    if i > 0 {
        assert(is_name_byte(name[i]));
    }
}

pub fn is_valid_qualified_name(name: &[u8]) -> (r: bool)
    ensures
        r == is_qualified_name(name@),
{
    let len: usize = name.len();
    let mut colon: usize = 0;
    while colon < len && name[colon] != COLON
        invariant
            colon <= len == name@.len(),
            forall|k: int| 0 <= k < colon ==> name@[k] != COLON,
        decreases len - colon,
    {
        colon = colon + 1;
    }
    if colon == len {
        let r = is_valid_xml_name_part(name);
        proof {
            assert forall|i: int|
                0 <= i < name@.len() && name@[i] == COLON implies !is_name_part(
                name@.take(i),
            ) by {}
        }
        return r;
    }
    // `colon` is the first `:`; a second one makes the name invalid.

    let mut second: usize = colon + 1;
    while second < len && name[second] != COLON
        invariant
            colon < second <= len == name@.len(),
            forall|k: int| colon < k < second ==> name@[k] != COLON,
        decreases len - second,
    {
        second = second + 1;
    }
    proof {
        // The whole name holds a `:`, so it is no single name part.
        if is_name_part(name@) {
            lemma_name_part_has_no_colon(name@, colon as int);
        }
    }
    if second < len {
        proof {
            assert forall|i: int|
                0 <= i < name@.len() && name@[i] == COLON && is_name_part(
                    name@.take(i),
                ) implies !is_name_part(#[trigger] name@.skip(i + 1)) by {
                if i < colon {
                } else if i == colon {
                    if is_name_part(name@.skip(i + 1)) {
                        lemma_name_part_has_no_colon(name@.skip(i + 1), second - i - 1);
                    }
                } else {
                    lemma_name_part_has_no_colon(name@.take(i), colon as int);
                }
            }
        }
        return false;
    }
    let first_ok = is_name_part_in(name, 0, colon);
    let second_ok = is_name_part_in(name, colon + 1, len);
    proof {
        assert(name@.subrange(0, colon as int) =~= name@.take(colon as int));
        assert(name@.subrange(colon + 1, len as int) =~= name@.skip(colon + 1));
        assert forall|i: int|
            0 <= i < name@.len() && name@[i] == COLON && i != colon implies !(is_name_part(
                name@.take(i),
            ) && is_name_part(#[trigger] name@.skip(i + 1))) by {
            if i < colon {
            } else {
                if is_name_part(name@.take(i)) {
                    lemma_name_part_has_no_colon(name@.take(i), colon as int);
                }
            }
        }
    }
    first_ok && second_ok
}

/// Law: a qualified name holds at most one `:`, and neither it nor its local
/// part starts with a digit, `-`, `.` or `:`.
pub proof fn law_qualified_name_shape(name: Seq<u8>)
    requires
        is_qualified_name(name),
    ensures
        forall|i: int, j: int|
            0 <= i < j < name.len() ==> !(#[trigger] name[i] == COLON && #[trigger] name[j]
                == COLON),
        name.len() > 0 && is_name_start_byte(name[0]),
        forall|i: int|
            0 <= i < name.len() && #[trigger] name[i] == COLON ==> i + 1 < name.len()
                && is_name_start_byte(name[i + 1]),
{
    if is_name_part(name) {
        assert forall|i: int, j: int|
            0 <= i < j < name.len() implies !(#[trigger] name[i] == COLON && #[trigger] name[j]
            == COLON) by {
            lemma_name_part_has_no_colon(name, i);
        }
        assert forall|i: int| 0 <= i < name.len() && #[trigger] name[i] == COLON implies i + 1
            < name.len() && is_name_start_byte(name[i + 1]) by {
            lemma_name_part_has_no_colon(name, i);
        }
    } else {
        let k = choose|k: int|
            0 <= k < name.len() && name[k] == COLON && is_name_part(name.take(k))
                && #[trigger] is_name_part(name.skip(k + 1));
        let head = name.take(k);
        let tail = name.skip(k + 1);
        assert(name[0] == head[0]);
        assert forall|i: int, j: int|
            0 <= i < j < name.len() implies !(#[trigger] name[i] == COLON && #[trigger] name[j]
            == COLON) by {
            if i < k {
                assert(head[i] == name[i]);
                lemma_name_part_has_no_colon(head, i);
            } else if i > k {
                assert(tail[i - k - 1] == name[i]);
                lemma_name_part_has_no_colon(tail, i - k - 1);
            } else {
                assert(tail[j - k - 1] == name[j]);
                lemma_name_part_has_no_colon(tail, j - k - 1);
            }
        }
        assert forall|i: int| 0 <= i < name.len() && #[trigger] name[i] == COLON implies i + 1
            < name.len() && is_name_start_byte(name[i + 1]) by {
            if i < k {
                assert(head[i] == name[i]);
                lemma_name_part_has_no_colon(head, i);
            } else if i > k {
                assert(tail[i - k - 1] == name[i]);
                lemma_name_part_has_no_colon(tail, i - k - 1);
            } else {
                assert(tail[0] == name[k + 1]);
            }
        }
    }
}

// ---------------------------------------------------------------------------
// Characters
// ---------------------------------------------------------------------------

/// The code points of the XML 1.0 `Char` production.
pub open spec fn is_xml_char_code(code: int) -> bool {
    ||| code == 0x9
    ||| code == 0xA
    ||| code == 0xD
    ||| 0x20 <= code <= 0xD7FF
    ||| 0xE000 <= code <= 0xFFFD
    ||| 0x10000 <= code <= 0x10FFFF
}

pub open spec fn is_xml_char(character: char) -> bool {
    is_xml_char_code(character as int)
}

/// Bytes that are UTF-8 text made only of XML characters.
pub open spec fn is_xml_character_data(value: Seq<u8>) -> bool {
    &&& valid_utf8(value)
    &&& forall|i: int|
        0 <= i < decode_utf8(value).len() ==> #[trigger] is_xml_char(decode_utf8(value)[i])
}

pub fn is_valid_xml_character(character: char) -> (r: bool)
    ensures
        r == is_xml_char(character),
{
    character == '\u{9}' || character == '\u{A}' || character == '\u{D}' || ('\u{20}' <= character
        && character <= '\u{D7FF}') || ('\u{E000}' <= character && character <= '\u{FFFD}') || (
    '\u{10000}' <= character && character <= '\u{10FFFF}')
}

/// `std::str::from_utf8`: the bytes read as a string slice when they are UTF-8.
/// Its documentation says that it returns the string slice over exactly these
/// bytes when they are valid UTF-8, and an error otherwise.
#[verifier::external_body]
fn utf8_text(bytes: &[u8]) -> (r: Option<&str>)
    ensures
        r matches Some(text) ==> text.spec_bytes() == bytes@,
        r is None ==> !valid_utf8(bytes@),
{
    std::str::from_utf8(bytes).ok()
}

pub fn is_valid_xml_characters(value: &[u8]) -> (r: bool)
    ensures
        r == is_xml_character_data(value@),
{
    match utf8_text(value) {
        None => false,
        Some(text) => {
            proof {
                encode_utf8_valid_utf8(text@);
                encode_utf8_decode_utf8(text@);
            }
            let ghost chars = decode_utf8(value@);
            assert(chars == text@);
            for character in it: text.chars()
                invariant
                    chars == text@,
                    chars == decode_utf8(value@),
                    valid_utf8(value@),
                    it.seq() == chars,
                    forall|k: int| 0 <= k < it.index() ==> #[trigger] is_xml_char(chars[k]),
            {
                if !is_valid_xml_character(character) {
                    return false;
                }
            }
            true
        },
    }
}

/// Markup whitespace: space, tab, carriage return and line feed only.
pub open spec fn is_xml_space_byte(byte: u8) -> bool {
    byte == SPACE || byte == TAB || byte == CARRIAGE_RETURN || byte == LINE_FEED
}

pub open spec fn is_xml_space(value: Seq<u8>) -> bool {
    forall|i: int| 0 <= i < value.len() ==> #[trigger] is_xml_space_byte(value[i])
}

pub fn is_xml_whitespace(value: &[u8]) -> (r: bool)
    ensures
        r == is_xml_space(value@),
{
    let mut i: usize = 0;
    while i < value.len()
        invariant
            i <= value@.len(),
            forall|k: int| 0 <= k < i ==> #[trigger] is_xml_space_byte(value@[k]),
        decreases value@.len() - i,
    {
        let byte: u8 = value[i];
        if !(byte == SPACE || byte == TAB || byte == CARRIAGE_RETURN || byte == LINE_FEED) {
            assert(!is_xml_space_byte(value@[i as int]));
            return false;
        }
        i = i + 1;
    }
    true
}

/// Whether `]]>`, which may not stand in character data, occurs in `value`.
pub open spec fn holds_cdata_end(value: Seq<u8>) -> bool {
    exists|i: int|
        0 <= i && i + 3 <= value.len() && #[trigger] value[i] == RIGHT_BRACKET && value[i + 1] == RIGHT_BRACKET
            && value[i + 2] == GREATER_THAN
}

pub fn contains_cdata_end(value: &[u8]) -> (r: bool)
    ensures
        r == holds_cdata_end(value@),
{
    let len: usize = value.len();
    if len < 3 {
        return false;
    }
    let mut i: usize = 0;
    while i < len - 2
        invariant
            len == value@.len(),
            len >= 3,
            i <= len - 2,
            forall|k: int|
                0 <= k < i ==> !(#[trigger] value@[k] == RIGHT_BRACKET && value@[k + 1] == RIGHT_BRACKET && value@[k
                    + 2] == GREATER_THAN),
        decreases len - i,
    {
        if value[i] == RIGHT_BRACKET && value[i + 1] == RIGHT_BRACKET && value[i + 2] == GREATER_THAN {
            return true;
        }
        i = i + 1;
    }
    false
}

// ---------------------------------------------------------------------------
// References
// ---------------------------------------------------------------------------

pub open spec fn is_decimal_digit(byte: u8) -> bool {
    DIGIT_ZERO <= byte && byte <= DIGIT_NINE
}

pub open spec fn is_hex_digit(byte: u8) -> bool {
    is_decimal_digit(byte) || (LOWER_A <= byte && byte <= LOWER_F) || (UPPER_A <= byte && byte <= UPPER_F)
}

pub open spec fn is_radix_digit(byte: u8, radix: int) -> bool {
    if radix == 16 {
        is_hex_digit(byte)
    } else {
        is_decimal_digit(byte)
    }
}

pub open spec fn digit_value(byte: u8) -> int {
    if is_decimal_digit(byte) {
        byte - DIGIT_ZERO
    } else if LOWER_A <= byte && byte <= LOWER_F {
        byte - LOWER_A + 10
    } else {
        byte - UPPER_A + 10
    }
}

pub open spec fn all_radix_digits(digits: Seq<u8>, radix: int) -> bool {
    forall|i: int| 0 <= i < digits.len() ==> #[trigger] is_radix_digit(digits[i], radix)
}

/// The number that the digits spell in the given radix.
pub open spec fn digits_value(digits: Seq<u8>, radix: int) -> int
    decreases digits.len(),
{
    if digits.len() == 0 {
        0
    } else {
        digits_value(digits.drop_last(), radix) * radix + digit_value(digits.last())
    }
}

/// What `u32::from_str_radix` gives for this text: an optional `+` followed by
/// at least one digit of the radix, whose value fits in 32 bits.
pub open spec fn u32_from_radix(text: Seq<u8>, radix: int) -> Option<int> {
    let digits = if text.len() > 0 && text[0] == PLUS {
        text.drop_first()
    } else {
        text
    };
    if digits.len() > 0 && all_radix_digits(digits, radix) && digits_value(digits, radix)
        <= u32::MAX {
        Some(digits_value(digits, radix))
    } else {
        None
    }
}

/// The code point that a character reference (`#...` or `#x...`) names.
pub open spec fn reference_code(reference: Seq<u8>) -> Option<int> {
    if reference.len() >= 2 && reference[0] == HASH && (reference[1] == LOWER_X || reference[1]
        == UPPER_X) {
        u32_from_radix(reference.skip(2), 16)
    } else if reference.len() >= 1 && reference[0] == HASH && all_radix_digits(
        reference.skip(1),
        10,
    ) {
        u32_from_radix(reference.skip(1), 10)
    } else {
        None
    }
}

/// One of the five predefined entities `lt`, `gt`, `amp`, `apos` and `quot`
/// (as ASCII bytes).
pub open spec fn is_predefined_entity(reference: Seq<u8>) -> bool {
    ||| reference == seq![0x6cu8, 0x74u8]
    ||| reference == seq![0x67u8, 0x74u8]
    ||| reference == seq![LOWER_A, 0x6du8, 0x70u8]
    ||| reference == seq![LOWER_A, 0x70u8, 0x6fu8, 0x73u8]
    ||| reference == seq![0x71u8, 0x75u8, 0x6fu8, 0x74u8]
}

/// A reference (the text between `&` and `;`) that is a predefined entity, or a
/// character reference to an XML character.
pub open spec fn is_valid_reference(reference: Seq<u8>) -> bool {
    ||| is_predefined_entity(reference)
    ||| (reference.len() >= 1 && reference[0] == HASH && (reference_code(reference) matches Some(
        code,
    ) && is_xml_char_code(code)))
}

proof fn lemma_digits_value_nonneg(digits: Seq<u8>, radix: int)
    requires
        radix == 10 || radix == 16,
        all_radix_digits(digits, radix),
    ensures
        digits_value(digits, radix) >= 0,
    decreases digits.len(),
{
    if digits.len() > 0 {
        assert(is_radix_digit(digits[digits.len() - 1], radix));
        lemma_digits_value_nonneg(digits.drop_last(), radix);
        assert(digits_value(digits.drop_last(), radix) * radix >= 0) by (nonlinear_arith)
            requires
                digits_value(digits.drop_last(), radix) >= 0,
                radix >= 0,
        ;
    }
}

proof fn lemma_digits_value_grows(digits: Seq<u8>, radix: int, k: int)
    requires
        radix == 10 || radix == 16,
        all_radix_digits(digits, radix),
        0 <= k <= digits.len(),
    ensures
        digits_value(digits.take(k), radix) <= digits_value(digits, radix),
    decreases digits.len(),
{
    if k < digits.len() {
        let prefix = digits.drop_last();
        assert(all_radix_digits(prefix, radix));
        lemma_digits_value_grows(prefix, radix, k);
        assert(prefix.take(k) =~= digits.take(k));
        lemma_digits_value_nonneg(prefix, radix);
        assert(is_radix_digit(digits.last(), radix));
        assert(digits_value(prefix, radix) <= digits_value(prefix, radix) * radix) by (
        nonlinear_arith)
            requires
                digits_value(prefix, radix) >= 0,
                radix >= 1,
        ;
    } else {
        assert(digits.take(k) =~= digits);
    }
}

/// The value of `bytes[start..end]` read as digits of `radix`, when all of them
/// are digits, they are not empty and their value is a code point no larger
/// than 0x10FFFF; `None` otherwise.
fn small_digits_value(bytes: &[u8], start: usize, end: usize, radix: u32) -> (r: Option<u32>)
    requires
        start <= end <= bytes@.len(),
        radix == 10 || radix == 16,
    ensures
        ({
            let digits = bytes@.subrange(start as int, end as int);
            match r {
                Some(v) => digits.len() > 0 && all_radix_digits(digits, radix as int) && v
                    == digits_value(digits, radix as int) && v <= 0x10FFFF,
                None => !(digits.len() > 0 && all_radix_digits(digits, radix as int)
                    && digits_value(digits, radix as int) <= 0x10FFFF),
            }
        }),
{
    let ghost digits = bytes@.subrange(start as int, end as int);
    if start == end {
        return None;
    }
    let mut value: u32 = 0;
    let mut i: usize = start;
    while i < end
        invariant
            start <= i <= end <= bytes@.len(),
            radix == 10 || radix == 16,
            digits == bytes@.subrange(start as int, end as int),
            all_radix_digits(digits.take(i - start), radix as int),
            value == digits_value(digits.take(i - start), radix as int),
            value <= 0x10FFFF,
        decreases end - i,
    {
        let byte: u8 = bytes[i];
        let d: u32 = if DIGIT_ZERO <= byte && byte <= DIGIT_NINE {
            (byte - DIGIT_ZERO) as u32
        } else if radix == 16 && LOWER_A <= byte && byte <= LOWER_F {
            (byte - LOWER_A) as u32 + 10
        } else if radix == 16 && UPPER_A <= byte && byte <= UPPER_F {
            (byte - UPPER_A) as u32 + 10
        } else {
            proof {
                assert(digits[i - start] == byte);
                assert(!is_radix_digit(digits[i - start], radix as int));
            }
            return None;
        };
        let ghost next = digits.take(i - start + 1);
        assert(next.drop_last() =~= digits.take(i - start));
        assert(next.last() == byte);
        assert(is_radix_digit(byte, radix as int));
        assert(all_radix_digits(next, radix as int)) by {
            assert forall|k: int| 0 <= k < next.len() implies #[trigger] is_radix_digit(
                next[k],
                radix as int,
            ) by {
                if k < next.len() - 1 {
                    assert(next[k] == digits.take(i - start)[k]);
                }
            }
        }
        assert(digits_value(next, radix as int) == value * radix + d);
        if value > (0x10FFFF - d) / radix {
            proof {
                assert(value * radix + d > 0x10FFFF) by (nonlinear_arith)
                    requires
                        value > (0x10FFFF - d) / (radix as int),
                        radix >= 1,
                        d <= 0x10FFFF,
                ;
                // Either a later byte is no digit, or the value is too large.

                if all_radix_digits(digits, radix as int) {
                    lemma_digits_value_grows(digits, radix as int, i - start + 1);
                }
            }
            return None;
        }
        assert(value * radix + d <= 0x10FFFF) by (nonlinear_arith)
            requires
                value <= (0x10FFFF - d) / (radix as int),
                radix >= 1,
                d <= 0x10FFFF,
        ;
        value = value * radix + d;
        i = i + 1;
    }
    assert(digits.take(end - start) =~= digits);
    Some(value)
}

pub fn is_valid_entity_reference(reference: &[u8]) -> (r: bool)
    ensures
        r == is_valid_reference(reference@),
{
    let len: usize = reference.len();
    let ghost s = reference@;
    if len == 2 && ((reference[0] == 0x6c || reference[0] == 0x67) && reference[1] == 0x74) {
        assert(s =~= seq![0x6cu8, 0x74u8] || s =~= seq![0x67u8, 0x74u8]);
        return true;
    }
    if len == 3 && reference[0] == LOWER_A && reference[1] == 0x6d && reference[2] == 0x70 {
        assert(s =~= seq![LOWER_A, 0x6du8, 0x70u8]);
        return true;
    }
    if len == 4 && reference[0] == LOWER_A && reference[1] == 0x70 && reference[2] == 0x6f
        && reference[3] == 0x73 {
        assert(s =~= seq![LOWER_A, 0x70u8, 0x6fu8, 0x73u8]);
        return true;
    }
    if len == 4 && reference[0] == 0x71 && reference[1] == 0x75 && reference[2] == 0x6f
        && reference[3] == 0x74 {
        assert(s =~= seq![0x71u8, 0x75u8, 0x6fu8, 0x74u8]);
        return true;
    }
    proof {
        if is_predefined_entity(s) {
            if s == seq![0x6cu8, 0x74u8] {
                assert(s[0] == 0x6c && s[1] == 0x74);
            } else if s == seq![0x67u8, 0x74u8] {
                assert(s[0] == 0x67 && s[1] == 0x74);
            } else if s == seq![LOWER_A, 0x6du8, 0x70u8] {
                assert(s[0] == LOWER_A && s[1] == 0x6d && s[2] == 0x70);
            } else if s == seq![LOWER_A, 0x70u8, 0x6fu8, 0x73u8] {
                assert(s[0] == LOWER_A && s[1] == 0x70 && s[2] == 0x6f && s[3] == 0x73);
            } else {
                assert(s[0] == 0x71 && s[1] == 0x75 && s[2] == 0x6f && s[3] == 0x74);
            }
        }
    }
    if len == 0 || reference[0] != HASH {
        return false;
    }
    let value = if len >= 2 && (reference[1] == LOWER_X || reference[1] == UPPER_X) {
        let start: usize = if len >= 3 && reference[2] == PLUS {
            3
        } else {
            2
        };
        let v = small_digits_value(reference, start, len, 16);
        proof {
            let text = s.skip(2);
            let digits = s.subrange(start as int, len as int);
            if start == 3 {
                assert(text[0] == PLUS);
                assert(text.drop_first() =~= digits);
            } else {
                assert(text =~= digits);
            }
        }
        v
    } else {
        let v = small_digits_value(reference, 1, len, 10);
        proof {
            let text = s.skip(1);
            assert(text =~= s.subrange(1, len as int));
            if len >= 2 && text[0] == PLUS {
                assert(!is_radix_digit(text[0], 10));
            }
        }
        v
    };
    match value {
        None => false,
        Some(code) => {
            let c: u32 = code;
            c == 0x9 || c == 0xA || c == 0xD || (0x20 <= c && c <= 0xD7FF) || (0xE000 <= c && c
                <= 0xFFFD) || (0x10000 <= c && c <= 0x10FFFF)
        },
    }
}

/// Law: the byte classes of the rules, as ASCII: a name starts with a letter
/// or `_` and goes on with letters, digits, `_`, `-` and `.`; markup
/// whitespace is space, tab, carriage return and line feed; `:` separates a
/// prefix.
pub proof fn law_byte_classes(byte: u8)
    ensures
        is_name_start_byte(byte) == ((0x41 <= byte <= 0x5a) || (0x61 <= byte <= 0x7a) || byte
            == 0x5f),
        is_name_byte(byte) == ((0x41 <= byte <= 0x5a) || (0x61 <= byte <= 0x7a) || byte == 0x5f
            || (0x30 <= byte <= 0x39) || byte == 0x2d || byte == 0x2e),
        is_xml_space_byte(byte) == (byte == 0x20 || byte == 0x09 || byte == 0x0d || byte == 0x0a),
        COLON == 0x3a,
{
}

/// Law: the characters of XML 1.0 are tab, line feed, carriage return and the
/// code points from U+0020 to U+D7FF, U+E000 to U+FFFD and U+10000 to
/// U+10FFFF.
pub proof fn law_xml_characters(code: int)
    ensures
        is_xml_char_code(code) == (code == 9 || code == 10 || code == 13 || (32 <= code <= 0xd7ff)
            || (0xe000 <= code <= 0xfffd) || (0x10000 <= code <= 0x10ffff)),
{
}

/// Law: character data holds `]]>` exactly when three bytes in a row are
/// `]`, `]` and `>`; markup whitespace is made of those four bytes only.
pub proof fn law_cdata_end_and_space(value: Seq<u8>)
    ensures
        holds_cdata_end(value) == exists|i: int|
            0 <= i && i + 3 <= value.len() && #[trigger] value[i] == 0x5d && value[i + 1] == 0x5d
                && value[i + 2] == 0x3e,
        is_xml_space(value) == forall|i: int|
            0 <= i < value.len() ==> (#[trigger] value[i] == 0x20 || value[i] == 0x09 || value[i]
                == 0x0d || value[i] == 0x0a),
{
    assert(is_xml_space(value) == forall|i: int|
        0 <= i < value.len() ==> (#[trigger] value[i] == 0x20 || value[i] == 0x09 || value[i]
            == 0x0d || value[i] == 0x0a)) by {
        if is_xml_space(value) {
            assert forall|i: int| 0 <= i < value.len() implies (#[trigger] value[i] == 0x20
                || value[i] == 0x09 || value[i] == 0x0d || value[i] == 0x0a) by {
                assert(is_xml_space_byte(value[i]));
            }
        }
    }
}

/// Law: the predefined entities are exactly `lt`, `gt`, `amp`, `apos` and
/// `quot`, each a valid reference; any other valid reference is a character
/// reference, starting with `#`.
pub proof fn law_references(reference: Seq<u8>)
    ensures
        is_predefined_entity(reference) == (reference == seq![0x6cu8, 0x74u8] || reference
            == seq![0x67u8, 0x74u8] || reference == seq![0x61u8, 0x6du8, 0x70u8] || reference
            == seq![0x61u8, 0x70u8, 0x6fu8, 0x73u8] || reference == seq![
            0x71u8,
            0x75u8,
            0x6fu8,
            0x74u8,
        ]),
        is_predefined_entity(reference) ==> is_valid_reference(reference),
        is_valid_reference(reference) && !is_predefined_entity(reference) ==> reference.len() >= 1
            && reference[0] == 0x23,
{
}

/// Law: digits are read as ASCII: `0`-`9` are worth 0 to 9, `a`-`f` and
/// `A`-`F` 10 to 15; a digit string is worth its value before the last digit
/// times the radix plus the last digit.
pub proof fn law_digit_values(byte: u8, digits: Seq<u8>, radix: int)
    ensures
        0x30 <= byte <= 0x39 ==> is_decimal_digit(byte) && is_hex_digit(byte) && digit_value(byte)
            == byte - 0x30,
        0x61 <= byte <= 0x66 ==> !is_decimal_digit(byte) && is_hex_digit(byte) && digit_value(byte)
            == byte - 0x61 + 10,
        0x41 <= byte <= 0x46 ==> !is_decimal_digit(byte) && is_hex_digit(byte) && digit_value(byte)
            == byte - 0x41 + 10,
        is_hex_digit(byte) == ((0x30 <= byte <= 0x39) || (0x61 <= byte <= 0x66) || (0x41 <= byte
            <= 0x46)),
        digits_value(digits.push(byte), radix) == digits_value(digits, radix) * radix
            + digit_value(byte),
        digits_value(Seq::empty(), radix) == 0,
{
    assert(digits.push(byte).drop_last() =~= digits);
}

/// Law: a character reference is `#` and decimal digits or `#x` (`#X`) and
/// hexadecimal digits, read as `u32::from_str_radix` reads them; it is valid
/// when the number is an XML character.
pub proof fn law_character_references(reference: Seq<u8>)
    ensures
        reference.len() >= 2 && reference[0] == 0x23 && (reference[1] == 0x78 || reference[1]
            == 0x58) ==> reference_code(reference) == u32_from_radix(reference.skip(2), 16),
        reference.len() >= 1 && reference[0] == 0x23 && (forall|i: int|
            1 <= i < reference.len() ==> 0x30 <= #[trigger] reference[i] <= 0x39)
            ==> reference_code(reference) == u32_from_radix(reference.skip(1), 10),
        reference.len() == 0 || reference[0] != 0x23 ==> reference_code(reference) is None,
        reference.len() >= 1 && reference[0] == 0x23 && (reference_code(reference) matches Some(
            code,
        ) && is_xml_char_code(code)) ==> is_valid_reference(reference),
{
    if reference.len() >= 1 && reference[0] == 0x23 && !(reference.len() >= 2 && (reference[1]
        == 0x78 || reference[1] == 0x58)) && (forall|i: int|
        1 <= i < reference.len() ==> 0x30 <= #[trigger] reference[i] <= 0x39) {
        assert forall|i: int| 0 <= i < reference.skip(1).len() implies #[trigger] is_radix_digit(
            reference.skip(1)[i],
            10,
        ) by {
            assert(reference.skip(1)[i] == reference[i + 1]);
        }
    }
}

/// Law: `u32::from_str_radix` as it is read here: an optional `+` and at
/// least one digit of the radix whose value fits in 32 bits give that value;
/// anything else gives nothing.
pub proof fn law_from_radix(text: Seq<u8>, radix: int)
    requires
        radix == 10 || radix == 16,
    ensures
        u32_from_radix(text, radix) matches Some(v) ==> 0 <= v <= u32::MAX,
        text.len() == 0 ==> u32_from_radix(text, radix) is None,
        text == seq![0x2bu8] ==> u32_from_radix(text, radix) is None,
        text.len() > 0 && text[0] != 0x2b && all_radix_digits(text, radix) && 0 <= digits_value(
            text,
            radix,
        ) <= u32::MAX ==> u32_from_radix(text, radix) == Some(digits_value(text, radix)),
{
    if text == seq![0x2bu8] {
        assert(text.drop_first().len() == 0);
    }
    let digits = if text.len() > 0 && text[0] == PLUS {
        text.drop_first()
    } else {
        text
    };
    if all_radix_digits(digits, radix) {
        lemma_digits_value_nonneg(digits, radix);
    }
}

} // verus!
