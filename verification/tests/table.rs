use proc_maps::{parse_maps_lines, LoadError, ParseError};

#[test]
fn a_well_formed_listing_loads_whole() {
    let lines = vec![
        "35b1800000-35b1820000 r-xp 00000000 08:02 135522  /usr/lib64/ld-2.15.so".to_string(),
        "35b1a20000-35b1a21000 rw-p 00020000 08:02 135522  /usr/lib64/ld-2.15.so".to_string(),
        "35b1a21000-35b1a22000 rw-p 00000000 00:00 0".to_string(),
    ];
    let entries = parse_maps_lines(&lines).unwrap();
    assert_eq!(entries.len(), 3);
    assert_eq!(entries[0].address, (0x35b1800000, 0x35b1820000));
    assert_eq!(entries[0].pathname().as_str(), "/usr/lib64/ld-2.15.so");
    assert_eq!(entries[1].offset, 0x20000);
    assert_eq!(entries[2].pathname().as_str(), "");
    assert_eq!(entries[2].inode, 0);
}

#[test]
fn an_empty_listing_loads_empty() {
    let entries = parse_maps_lines(&Vec::new()).unwrap();
    assert!(entries.is_empty());
}

#[test]
fn one_malformed_line_rejects_the_whole_load() {
    let lines = vec![
        "35b1a21000-35b1a22000 rw-p 00000000 00:00 0".to_string(),
        "not a mapping line at all".to_string(),
        "35b1800000-35b1820000 r-xp 00000000 08:02 135522".to_string(),
    ];
    assert_eq!(
        parse_maps_lines(&lines),
        Err(LoadError::Malformed(ParseError::InvalidRange))
    );
}

#[test]
fn the_first_bad_line_names_the_error() {
    // the second line's fault (bad perms) is reported, not the third's
    let lines = vec![
        "0-1 rwxp 0 0:0 0".to_string(),
        "0-1 rw 0 0:0 0".to_string(),
        "zz-1 rwxp 0 0:0 0".to_string(),
    ];
    assert_eq!(
        parse_maps_lines(&lines),
        Err(LoadError::Malformed(ParseError::InsufficientPerms))
    );
}
