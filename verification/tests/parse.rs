use proc_maps::{MapsEntry, MapsField, ParseError};

#[test]
fn check_maps_entry_parsing() {
    assert_eq!(
        MapsEntry::from_str(
            "ffffffffff600000-ffffffffff601000 --xp 00000000 00:00 0                  [vsyscall]"
        )
        .unwrap(),
        MapsEntry {
            address: (0xffffffffff600000, 0xffffffffff601000),
            perms: ['-', '-', 'x', 'p'],
            offset: 0x00000000,
            dev: (0x00, 0x00),
            inode: 0x0,
            pathname: "[vsyscall]".into(),
        }
    );

    assert_eq!(
        MapsEntry::from_str(
            "7f5985f46000-7f5985f48000 rw-p 00039000 103:06 76021795                  \
             /usr/lib/x86_64-linux-gnu/ld-linux-x86-64.so.2"
        )
        .unwrap(),
        MapsEntry {
            address: (0x7f5985f46000, 0x7f5985f48000),
            perms: ['r', 'w', '-', 'p'],
            offset: 0x00039000,
            dev: (0x103, 0x06),
            inode: 0x76021795,
            pathname: "/usr/lib/x86_64-linux-gnu/ld-linux-x86-64.so.2".into(),
        }
    );
    assert_eq!(
        MapsEntry::from_str("35b1a21000-35b1a22000 rw-p 00000000 00:00 0").unwrap(),
        MapsEntry {
            address: (0x35b1a21000, 0x35b1a22000),
            perms: ['r', 'w', '-', 'p'],
            offset: 0x00000000,
            dev: (0x00, 0x00),
            inode: 0x0,
            pathname: Default::default(),
        }
    );
}

#[test]
fn missing_fields_are_named_in_order() {
    assert_eq!(
        MapsEntry::from_str(""),
        Err(ParseError::MissingField(MapsField::AddressRange))
    );
    assert_eq!(
        MapsEntry::from_str("     "),
        Err(ParseError::MissingField(MapsField::AddressRange))
    );
    assert_eq!(
        MapsEntry::from_str("35b1a21000-35b1a22000"),
        Err(ParseError::MissingField(MapsField::Perms))
    );
    assert_eq!(
        MapsEntry::from_str("35b1a21000-35b1a22000 rw-p"),
        Err(ParseError::MissingField(MapsField::Offset))
    );
    assert_eq!(
        MapsEntry::from_str("35b1a21000-35b1a22000 rw-p 00000000"),
        Err(ParseError::MissingField(MapsField::Dev))
    );
    assert_eq!(
        MapsEntry::from_str("35b1a21000-35b1a22000 rw-p 00000000 00:00"),
        Err(ParseError::MissingField(MapsField::Inode))
    );
}

#[test]
fn range_without_dash_is_invalid_range() {
    assert_eq!(
        MapsEntry::from_str("35b1a21000 rw-p 00000000 00:00 0"),
        Err(ParseError::InvalidRange)
    );
}

#[test]
fn non_hex_range_is_invalid_hex() {
    assert_eq!(
        MapsEntry::from_str("35b1azz000-35b1a22000 rw-p 00000000 00:00 0"),
        Err(ParseError::InvalidHex)
    );
    assert_eq!(
        MapsEntry::from_str("35b1a21000-35b1azz000 rw-p 00000000 00:00 0"),
        Err(ParseError::InvalidHex)
    );
    assert_eq!(
        MapsEntry::from_str("-35b1a22000 rw-p 00000000 00:00 0"),
        Err(ParseError::InvalidHex)
    );
}

#[test]
fn three_perm_chars_are_insufficient() {
    assert_eq!(
        MapsEntry::from_str("35b1a21000-35b1a22000 rwp 00000000 00:00 0"),
        Err(ParseError::InsufficientPerms)
    );
}

#[test]
fn five_perm_chars_are_too_many() {
    assert_eq!(
        MapsEntry::from_str("35b1a21000-35b1a22000 rw-ps 00000000 00:00 0"),
        Err(ParseError::TooManyPerms)
    );
}

#[test]
fn any_four_perm_chars_are_accepted() {
    let e = MapsEntry::from_str("0-1 !?Z9 0 0:0 0").unwrap();
    assert_eq!(e.perms, ['!', '?', 'Z', '9']);
}

#[test]
fn non_hex_offset_is_invalid_hex() {
    assert_eq!(
        MapsEntry::from_str("35b1a21000-35b1a22000 rw-p 000q0000 00:00 0"),
        Err(ParseError::InvalidHex)
    );
}

#[test]
fn dev_without_colon_is_invalid_dev() {
    assert_eq!(
        MapsEntry::from_str("35b1a21000-35b1a22000 rw-p 00000000 0000 0"),
        Err(ParseError::InvalidDev)
    );
}

#[test]
fn non_hex_dev_halves_are_invalid_hex() {
    assert_eq!(
        MapsEntry::from_str("35b1a21000-35b1a22000 rw-p 00000000 0g:00 0"),
        Err(ParseError::InvalidHex)
    );
    assert_eq!(
        MapsEntry::from_str("35b1a21000-35b1a22000 rw-p 00000000 00: 0"),
        Err(ParseError::InvalidHex)
    );
}

#[test]
fn non_hex_inode_is_invalid_hex() {
    assert_eq!(
        MapsEntry::from_str("35b1a21000-35b1a22000 rw-p 00000000 00:00 0x"),
        Err(ParseError::InvalidHex)
    );
}

#[test]
fn earlier_faults_win_over_later_ones() {
    // a bad range is reported even though the perms field is bad too
    assert_eq!(
        MapsEntry::from_str("nodash rw 00000000 00:00 zz"),
        Err(ParseError::InvalidRange)
    );
    // a bad perms field is reported even though the inode is bad too
    assert_eq!(
        MapsEntry::from_str("0-1 rw 00000000 00:00 zz"),
        Err(ParseError::InsufficientPerms)
    );
}

#[test]
fn interior_padding_shifts_no_field() {
    let plain = MapsEntry::from_str("35b1a21000-35b1a22000 rw-p 00039000 103:06 2a /lib/x.so")
        .unwrap();
    let padded = MapsEntry::from_str(
        "35b1a21000-35b1a22000    rw-p   00039000    103:06     2a          /lib/x.so",
    )
    .unwrap();
    assert_eq!(plain, padded);
    assert_eq!(padded.pathname().as_str(), "/lib/x.so");
}

#[test]
fn leading_and_trailing_spaces_are_tolerated() {
    let e = MapsEntry::from_str("  0-1 rwxp 0 0:0 0   ").unwrap();
    assert_eq!(e.address, (0, 1));
    assert_eq!(e.pathname().as_str(), "");
}

#[test]
fn pathname_is_truncated_at_its_first_space() {
    // a known simplification of the format, kept as is
    let e = MapsEntry::from_str("0-1 rwxp 0 0:0 0 /tmp/with space").unwrap();
    assert_eq!(e.pathname().as_str(), "/tmp/with");
}

#[test]
fn ip_matches_is_inclusive_below_exclusive_above() {
    let e = MapsEntry::from_str("10-20 r-xp 0 0:0 0").unwrap();
    assert_eq!(e.address, (0x10, 0x20));
    assert!(!e.ip_matches(0x0f));
    assert!(e.ip_matches(0x10));
    assert!(e.ip_matches(0x1f));
    assert!(!e.ip_matches(0x20));
    assert!(!e.ip_matches(0x21));
}

#[test]
fn empty_range_contains_no_address() {
    let e = MapsEntry::from_str("10-10 r-xp 0 0:0 0").unwrap();
    assert!(!e.ip_matches(0x10));
}
