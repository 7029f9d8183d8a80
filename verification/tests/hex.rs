use proc_maps::parse_hex;

#[test]
fn parse_hex_exact_values() {
    assert_eq!(parse_hex("0"), Some(0));
    assert_eq!(parse_hex("00000000"), Some(0));
    assert_eq!(parse_hex("39000"), Some(0x39000));
    assert_eq!(parse_hex("DeadBeef"), Some(0xdeadbeef));
    assert_eq!(parse_hex("ffffffffffffffff"), Some(usize::MAX));
}

#[test]
fn parse_hex_accepts_one_leading_plus() {
    assert_eq!(parse_hex("+ff"), Some(0xff));
    assert_eq!(parse_hex("+0"), Some(0));
    assert_eq!(parse_hex("++0"), None);
    assert_eq!(parse_hex("+"), None);
}

#[test]
fn parse_hex_rejects_what_is_no_number() {
    assert_eq!(parse_hex(""), None);
    assert_eq!(parse_hex("-1"), None);
    assert_eq!(parse_hex("0x10"), None);
    assert_eq!(parse_hex("12 34"), None);
    assert_eq!(parse_hex("g"), None);
}

#[test]
fn parse_hex_rejects_overflow() {
    assert_eq!(parse_hex("10000000000000000"), None);
    assert_eq!(parse_hex("ffffffffffffffffff"), None);
}

#[test]
fn tokenize_filters_empty_fragments() {
    let toks = proc_maps::tokenize("  a   bb  c ");
    assert_eq!(toks, vec!["a".to_string(), "bb".to_string(), "c".to_string()]);
    assert_eq!(proc_maps::tokenize(""), Vec::<String>::new());
    assert_eq!(proc_maps::tokenize("   "), Vec::<String>::new());
}
