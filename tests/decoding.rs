use rfid_inventory::decimal::{hex_to_decimal, DecodeError};
use rfid_inventory::decoder::{decimal_or_hex, decode, is_reader_command, normalize_identifier};
use rfid_inventory::format::{
    format_table, interpret_format, interpret_format_in, is_rules_most_specific_first, FormatRule,
};
use rfid_inventory::hex::to_hex;
use rfid_inventory::layout::{remap, KeyboardLayout};
use rfid_inventory::manufacturer::{
    guess_manufacturer, guess_manufacturer_in, is_most_specific_first, manufacturer_table,
};

#[test]
fn hex_to_decimal_known_values() {
    assert_eq!(hex_to_decimal("00").unwrap(), "0");
    assert_eq!(hex_to_decimal("FF").unwrap(), "255");
    assert_eq!(hex_to_decimal("DEADBEEF").unwrap(), "3735928559");
}

#[test]
fn hex_to_decimal_ignores_spaces_and_case() {
    assert_eq!(hex_to_decimal("DE AD BE EF").unwrap(), "3735928559");
    assert_eq!(hex_to_decimal("de ad be ef").unwrap(), "3735928559");
    assert_eq!(hex_to_decimal("ABC").unwrap(), "2748");
}

#[test]
fn hex_to_decimal_empty_and_zero() {
    assert_eq!(hex_to_decimal("").unwrap(), "0");
    assert_eq!(hex_to_decimal("   ").unwrap(), "0");
    assert_eq!(hex_to_decimal("00 00 00 00").unwrap(), "0");
    assert_eq!(hex_to_decimal("00 01").unwrap(), "1");
}

#[test]
fn hex_to_decimal_beyond_machine_width() {
    assert_eq!(
        hex_to_decimal("01 23 45 67 89 AB CD EF 01 23").unwrap(),
        "5373003642731685151011"
    );
    assert_eq!(hex_to_decimal("FFFFFFFFFFFFFFFF").unwrap(), "18446744073709551615");
    assert_eq!(hex_to_decimal("010000000000000000").unwrap(), "18446744073709551616");
}

#[test]
fn hex_to_decimal_rejects_other_characters() {
    assert_eq!(hex_to_decimal("?? 01"), Err(DecodeError::InvalidHexDigit));
    assert_eq!(hex_to_decimal("0G"), Err(DecodeError::InvalidHexDigit));
    assert_eq!(hex_to_decimal("01\t02"), Err(DecodeError::InvalidHexDigit));
}

#[test]
fn decimal_falls_back_to_hex_text() {
    assert_eq!(decimal_or_hex("?? 01"), "?? 01");
    assert_eq!(decimal_or_hex("01 00"), "256");
}

#[test]
fn to_hex_groups_bytes() {
    assert_eq!(to_hex("0123456789AB"), "01 23 45 67 89 AB");
    assert_eq!(to_hex("deadbeef"), "DE AD BE EF");
    assert_eq!(to_hex("abc"), "0A BC");
    assert_eq!(to_hex("F"), "0F");
    assert_eq!(to_hex(""), "");
}

#[test]
fn to_hex_marks_noise() {
    assert_eq!(to_hex("0G12"), "?? 12");
    assert_eq!(to_hex("é1"), "??");
    assert_eq!(to_hex("12 34"), "01 ?? 34");
}

#[test]
fn remap_default_layout_is_identity() {
    for s in ["", "0123456789AB", "&é\"'(-è_çà", "Qq Ww", "config"] {
        assert_eq!(remap(s, KeyboardLayout::Us), s);
    }
}

#[test]
fn remap_azerty_digits_and_letters() {
    assert_eq!(remap("&é\"'(-è_çà", KeyboardLayout::Azerty), "1234567890");
    assert_eq!(remap("QBCDEF", KeyboardLayout::Azerty), "ABCDEF");
    assert_eq!(remap("zw!", KeyboardLayout::Azerty), "wz!");
}

#[test]
fn layout_from_code() {
    assert_eq!(KeyboardLayout::from_code(0), KeyboardLayout::Us);
    assert_eq!(KeyboardLayout::from_code(1), KeyboardLayout::Azerty);
    assert_eq!(KeyboardLayout::from_code(-3), KeyboardLayout::Us);
}

#[test]
fn manufacturer_longer_prefix_listed_first_wins() {
    let table = vec![("ABCD", "Y"), ("AB", "X")];
    assert_eq!(guess_manufacturer_in(&table, "AB CD EF"), "Y");
    assert_eq!(guess_manufacturer_in(&table, "AB 12"), "X");
    assert_eq!(guess_manufacturer_in(&table, "CD AB"), "Unknown");
    assert!(is_most_specific_first(&table));
}

#[test]
fn manufacturer_shorter_prefix_listed_first_shadows() {
    let table = vec![("AB", "X"), ("ABCD", "Y")];
    assert_eq!(guess_manufacturer_in(&table, "AB CD EF"), "X");
    assert!(!is_most_specific_first(&table));
}

#[test]
fn manufacturer_table_is_most_specific_first() {
    assert!(is_most_specific_first(&manufacturer_table()));
}

#[test]
fn manufacturer_builtin_table() {
    assert_eq!(guess_manufacturer("04 A2 B3 C4"), "NXP Semiconductors");
    assert_eq!(guess_manufacturer("E0 04 01 02"), "NXP Semiconductors (ISO 15693)");
    assert_eq!(guess_manufacturer("E0 99 01 02"), "ISO 15693 tag");
    assert_eq!(guess_manufacturer("FF 00"), "Unknown");
    assert_eq!(guess_manufacturer(""), "Unknown");
}

#[test]
fn format_builtin_rules() {
    assert_eq!(interpret_format(";1234567?"), "Magnetic stripe, track 2");
    assert_eq!(interpret_format("%B123?"), "Magnetic stripe, track 1");
    assert_eq!(interpret_format("12,34567"), "Facility code and card number");
    assert_eq!(interpret_format("0012345678"), "10-digit decimal (EM4100 / HID Proximity)");
    assert_eq!(interpret_format("12345678"), "8-digit decimal (26-bit Wiegand)");
    assert_eq!(interpret_format("04A2B3C4"), "4-byte UID (MIFARE Classic)");
    assert_eq!(interpret_format("04A2B3C4D5"), "5-byte UID (EM4100)");
    assert_eq!(interpret_format("04A2B3C4D5E6F7"), "7-byte UID (MIFARE Ultralight / NTAG)");
    assert_eq!(interpret_format("E004010203040506"), "8-byte UID (ISO 15693)");
    assert_eq!(interpret_format("hello"), "Unrecognized");
    assert_eq!(interpret_format(""), "Unrecognized");
}

#[test]
fn format_first_matching_rule_wins() {
    let rules = vec![(FormatRule::HexDigits(8), "hex"), (FormatRule::DecimalDigits(8), "dec")];
    assert_eq!(interpret_format_in(&rules, "12345678"), "hex");
    let rules = vec![(FormatRule::DecimalDigits(8), "dec"), (FormatRule::HexDigits(8), "hex")];
    assert_eq!(interpret_format_in(&rules, "12345678"), "dec");
    assert_eq!(interpret_format_in(&rules, "1234567A"), "hex");
    assert_eq!(format_table().len(), 9);
}

#[test]
fn decode_end_to_end() {
    let tag = decode("0123456789AB", KeyboardLayout::Us);
    assert_eq!(tag.hex_uid, "01 23 45 67 89 AB");
    assert_eq!(tag.decimal_value, "1250999896491");
    assert_eq!(tag.manufacturer, "Motorola");
    assert_eq!(tag.format_description, "Unrecognized");
    assert!(!tag.hex_uid.is_empty());
    assert!(!tag.decimal_value.is_empty());
    assert!(tag.decimal_value.chars().all(|c| c.is_ascii_digit()));
    assert!(!tag.manufacturer.is_empty());
    assert!(!tag.format_description.is_empty());
}

#[test]
fn decode_azerty_scan() {
    let tag = decode("&é\"'(-è_", KeyboardLayout::Azerty);
    assert_eq!(tag.hex_uid, "12 34 56 78");
    assert_eq!(tag.decimal_value, "305419896");
    assert_eq!(tag.manufacturer, "Unknown");
    assert_eq!(tag.format_description, "Unrecognized");
}

#[test]
fn decode_never_fails() {
    for raw in ["", "?", "config", "Buz", "é&ç", "   ", "\n\t", "04 A2 B3 C4", "ÿÿÿÿÿÿÿÿÿÿÿÿÿÿÿÿÿÿ"] {
        let tag = decode(raw, KeyboardLayout::Us);
        let again = decode(raw, KeyboardLayout::Azerty);
        assert!(!tag.manufacturer.is_empty());
        assert!(!again.format_description.is_empty());
    }
    let tag = decode("zz", KeyboardLayout::Us);
    assert_eq!(tag.hex_uid, "??");
    assert_eq!(tag.decimal_value, "??");
    assert_eq!(tag.manufacturer, "Unknown");
    let tag = decode("", KeyboardLayout::Us);
    assert_eq!(tag.hex_uid, "");
    assert_eq!(tag.decimal_value, "0");
}

#[test]
fn normalize_is_idempotent() {
    for id in ["01 23 45", " 0A\tBC\n", "", "ABCD", "  "] {
        let once = normalize_identifier(id);
        assert_eq!(normalize_identifier(&once), once);
    }
    assert_eq!(normalize_identifier("01 23 45 67 89 AB"), "0123456789AB");
    assert_eq!(normalize_identifier(" 0A\tBC\r\n"), "0ABC");
}

#[test]
fn decoded_tag_normalized_id() {
    let tag = decode("04a2b3c4", KeyboardLayout::Us);
    assert_eq!(tag.normalized_id(), "04A2B3C4");
}

#[test]
fn reader_commands_are_recognised() {
    assert!(is_reader_command("config"));
    assert!(is_reader_command("set config 3"));
    assert!(is_reader_command("Buzzer on"));
    assert!(is_reader_command("xBuz"));
    assert!(!is_reader_command("0123456789AB"));
    assert!(!is_reader_command("Bu"));
    assert!(!is_reader_command("conf ig"));
    assert!(!is_reader_command(""));
}

#[test]
fn format_rule_order_check() {
    assert!(is_rules_most_specific_first(&format_table()));
    let rules = vec![(FormatRule::HexDigits(8), "hex"), (FormatRule::DecimalDigits(8), "dec")];
    assert!(!is_rules_most_specific_first(&rules));
    let rules = vec![(FormatRule::Contains(';'), "semi"), (FormatRule::Framed(';', '?'), "track")];
    assert!(!is_rules_most_specific_first(&rules));
    let rules = vec![(FormatRule::Framed(';', '?'), "track"), (FormatRule::Contains(';'), "semi")];
    assert!(is_rules_most_specific_first(&rules));
}

#[test]
fn normalize_strips_unicode_whitespace() {
    assert_eq!(normalize_identifier("0A\u{0C}0B\u{A0}0C\u{3000}0D\u{0B}"), "0A0B0C0D");
    assert_eq!(normalize_identifier("\u{2003}AB\u{2028}"), "AB");
}
