use neowon_app::dab_gone::{GoneCause, LostEnsemble};
use neowon_app::text::{json_str, parse_u16, printable, push_decimal, push_hex4, push_str, same_text};

#[test]
fn json_strings_escape_quotes_and_backslashes() {
    assert_eq!(json_str("plain"), "\"plain\"");
    assert_eq!(json_str("say \"hi\""), "\"say \\\"hi\\\"\"");
    assert_eq!(json_str("a\\b"), "\"a\\\\b\"");
    assert_eq!(json_str("two\nlines\tand\rreturn"), "\"two lines and return\"");
    assert_eq!(json_str("bell\u{7}"), "\"bell?\"");
    assert_eq!(json_str("Caf\u{e9}"), "\"Caf\u{e9}\"");
    assert_eq!(json_str(""), "\"\"");
}

#[test]
fn printable_shows_only_graphic_ascii_and_space() {
    assert_eq!(printable(0x41), "'A'");
    assert_eq!(printable(0x20), "' '");
    assert_eq!(printable(0x7E), "'~'");
    assert_eq!(printable(0x7F), "");
    assert_eq!(printable(0x0A), "");
    // Only the low byte is shown.
    assert_eq!(printable(0x1_41), "'A'");
}

#[test]
fn numbers_print_in_decimal_and_hex() {
    let mut s = String::new();
    push_decimal(&mut s, 0);
    push_str(&mut s, " ");
    push_decimal(&mut s, 4097);
    push_str(&mut s, " ");
    push_decimal(&mut s, u64::MAX);
    assert_eq!(s, "0 4097 18446744073709551615");
    let mut h = String::new();
    push_hex4(&mut h, 0x1046);
    push_hex4(&mut h, 0xABCD);
    push_hex4(&mut h, 0x000F);
    assert_eq!(h, "1046ABCD000F");
}

#[test]
fn sixteen_bit_numbers_parse_in_any_base() {
    assert_eq!(parse_u16("4097", 0, 10), Some(4097));
    assert_eq!(parse_u16("+12", 0, 10), Some(12));
    assert_eq!(parse_u16("0x1001", 2, 16), Some(0x1001));
    assert_eq!(parse_u16("ffFF", 0, 16), Some(0xFFFF));
    assert_eq!(parse_u16("65535", 0, 10), Some(65535));
    assert_eq!(parse_u16("65536", 0, 10), None);
    assert_eq!(parse_u16("", 0, 10), None);
    assert_eq!(parse_u16("+", 0, 10), None);
    assert_eq!(parse_u16("-1", 0, 10), None);
    assert_eq!(parse_u16("12a", 0, 10), None);
    assert_eq!(parse_u16("#7", 1, 10), Some(7));
}

#[test]
fn text_compares_by_characters() {
    assert!(same_text("dab", "dab"));
    assert!(!same_text("dab", "dap"));
    assert!(!same_text("dab", "da"));
}

#[test]
fn a_lost_ensemble_describes_itself() {
    let lost = LostEnsemble {
        label: Some("NEOWON SIM".to_string()),
        eid: Some(0x1046),
        services: 5,
    };
    assert_eq!(lost.describe(), "NEOWON SIM (EId 1046, 5 services)");
    let anonymous = LostEnsemble {
        label: None,
        eid: None,
        services: 0,
    };
    assert_eq!(anonymous.describe(), "<no label> (EId -, 0 services)");
    assert_eq!(GoneCause::Expired.label(), "expired");
    assert_eq!(GoneCause::NoInput.label(), "no_input");
}
