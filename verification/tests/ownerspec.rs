use capsudo::ownerspec::{parse_mode, parse_owner_spec, resolve_owner};

#[test]
fn numeric_owner_spec() {
    assert_eq!(
        parse_owner_spec("1000:1000"),
        Some((Some(1000), Some(1000)))
    );
    assert_eq!(parse_owner_spec("1000"), Some((Some(1000), None)));
    assert_eq!(parse_owner_spec(":1000"), Some((None, Some(1000))));
}

#[test]
fn empty_owner_spec_is_rejected() {
    assert_eq!(parse_owner_spec(""), None);
    assert_eq!(parse_owner_spec(":"), None);
}

#[test]
fn mode_parsing() {
    assert_eq!(parse_mode("0770"), Some(0o770));
    assert_eq!(parse_mode("700"), Some(0o700));
    assert_eq!(parse_mode("7777"), Some(0o7777));
    assert_eq!(parse_mode("17777"), None); // > 07777
    assert_eq!(parse_mode("9"), None); // not octal
    assert_eq!(parse_mode("xyz"), None);
}

#[test]
fn mode_edge_cases() {
    assert_eq!(parse_mode(""), None);
    assert_eq!(parse_mode("+"), None);
    assert_eq!(parse_mode("-7"), None);
    assert_eq!(parse_mode("+755"), Some(0o755));
    assert_eq!(parse_mode("000000000000000000000007"), Some(7));
    assert_eq!(parse_mode("777777777777777777777777"), None);
    for v in [0u32, 1, 8, 0o644, 0o7777] {
        assert_eq!(parse_mode(&format!("{:o}", v)), Some(v));
    }
}

#[test]
fn named_owner_brings_the_primary_group() {
    assert_eq!(
        resolve_owner("web", Some((33, 44)), None),
        Some((Some(33), Some(44)))
    );
    assert_eq!(
        resolve_owner("web:staff", Some((33, 44)), Some(50)),
        Some((Some(33), Some(50)))
    );
    assert_eq!(
        resolve_owner("web:7", Some((33, 44)), None),
        Some((Some(33), Some(7)))
    );
    assert_eq!(
        resolve_owner(":staff", None, Some(50)),
        Some((None, Some(50)))
    );
}

#[test]
fn unknown_owner_is_rejected() {
    assert_eq!(resolve_owner("nobody-here", None, None), None);
    assert_eq!(resolve_owner("1000:no-such-group", None, None), None);
    assert_eq!(parse_owner_spec("no such user at all"), None);
    assert_eq!(parse_owner_spec("0:no such group at all"), None);
    assert_eq!(parse_owner_spec("ro\0ot"), None);
    assert_eq!(parse_owner_spec(":ro\0ot"), None);
}

#[test]
fn root_is_looked_up() {
    assert_eq!(parse_owner_spec("root"), Some((Some(0), Some(0))));
    assert_eq!(parse_owner_spec("7:root"), Some((Some(7), Some(0))));
}

#[test]
fn numbers_beyond_32_bits_are_names() {
    assert_eq!(
        parse_owner_spec("4294967295"),
        Some((Some(4294967295), None))
    );
    assert_eq!(parse_owner_spec("4294967296"), None);
}
