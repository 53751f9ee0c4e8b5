//! Tests of the durable record encoding and its parser.

use tchandle::codec::{encode_record, parse_record};
use tchandle::point::{AttachPoint, Direction, PersistedRecord};

fn record(if_name: &[u8], direction: Direction, priority: u16, handle: u32) -> PersistedRecord {
    PersistedRecord {
        point: AttachPoint { if_name: if_name.to_vec(), direction, priority, handle },
    }
}

fn parse_str(s: &str) -> Option<PersistedRecord> {
    parse_record(&s.as_bytes().to_vec())
}

#[test]
fn encode_writes_the_exact_canonical_text() {
    let r = record(b"eth0", Direction::Ingress, 50, 3);
    let out = encode_record(&r);
    assert_eq!(
        out,
        br#"{"if_name":"eth0","direction":"Ingress","priority":50,"handle":3}"#.to_vec()
    );

    let r = record(b"wlan1", Direction::Egress, 0, 4294967295);
    let out = encode_record(&r);
    assert_eq!(
        out,
        br#"{"if_name":"wlan1","direction":"Egress","priority":0,"handle":4294967295}"#.to_vec()
    );
}

#[test]
fn round_trip_returns_an_equal_record() {
    let cases = [
        record(b"eth0", Direction::Ingress, 50, 3),
        record(b"eth0", Direction::Egress, 1, 1),
        record(b"veth-a.42", Direction::Ingress, 65535, 4294967295),
        record(b"x", Direction::Egress, 0, 0),
    ];
    for r in cases {
        let parsed = parse_record(&encode_record(&r)).expect("canonical text parses");
        assert_eq!(parsed, r);
    }
}

#[test]
fn fields_parse_in_any_order() {
    let parsed = parse_str(
        r#"{"handle":3,"priority":50,"direction":"Ingress","if_name":"eth0"}"#,
    )
    .expect("reordered fields parse");
    assert_eq!(parsed, record(b"eth0", Direction::Ingress, 50, 3));

    let parsed = parse_str(
        r#"{"direction":"Egress","if_name":"eth1","handle":7,"priority":2}"#,
    )
    .expect("another order parses");
    assert_eq!(parsed, record(b"eth1", Direction::Egress, 2, 7));
}

#[test]
fn blank_space_between_tokens_is_tolerated() {
    let parsed = parse_str(
        " {\n  \"if_name\" : \"eth0\" ,\r\n  \"direction\" : \"Ingress\" ,\n  \"priority\" : 50 ,\n  \"handle\" : 3\n}\n",
    )
    .expect("spaced text parses");
    assert_eq!(parsed, record(b"eth0", Direction::Ingress, 50, 3));
}

#[test]
fn missing_or_repeated_fields_are_rejected() {
    assert!(parse_str(r#"{"if_name":"eth0","direction":"Ingress","priority":50}"#).is_none());
    assert!(parse_str(
        r#"{"if_name":"eth0","direction":"Ingress","priority":50,"priority":51}"#
    )
    .is_none());
    assert!(parse_str(
        r#"{"if_name":"eth0","if_name":"eth1","direction":"Ingress","priority":50,"handle":3}"#
    )
    .is_none());
}

#[test]
fn unknown_keys_and_values_are_rejected() {
    assert!(parse_str(
        r#"{"if_name":"eth0","direction":"Ingress","priority":50,"extra":3}"#
    )
    .is_none());
    assert!(parse_str(
        r#"{"if_name":"eth0","direction":"Sideways","priority":50,"handle":3}"#
    )
    .is_none());
    assert!(parse_str(
        r#"{"if_name":"eth0","direction":"Ingress","priority":fifty,"handle":3}"#
    )
    .is_none());
}

#[test]
fn out_of_range_numbers_are_rejected() {
    assert!(parse_str(
        r#"{"if_name":"eth0","direction":"Ingress","priority":65536,"handle":3}"#
    )
    .is_none());
    assert!(parse_str(
        r#"{"if_name":"eth0","direction":"Ingress","priority":50,"handle":4294967296}"#
    )
    .is_none());
}

#[test]
fn malformed_shapes_are_rejected() {
    assert!(parse_str("").is_none());
    assert!(parse_str("   ").is_none());
    assert!(parse_str("null").is_none());
    assert!(parse_str(r#"["if_name"]"#).is_none());
    assert!(parse_str(r#"{"if_name":"eth0","direction":"Ingress","priority":50,"handle":3"#)
        .is_none());
    assert!(parse_str(
        r#"{"if_name":"eth0","direction":"Ingress","priority":50,"handle":3} extra"#
    )
    .is_none());
    assert!(parse_str(
        r#"{"if_name":"","direction":"Ingress","priority":50,"handle":3}"#
    )
    .is_none());
    assert!(parse_str(
        "{\"if_name\":\"e\\th0\",\"direction\":\"Ingress\",\"priority\":50,\"handle\":3}",
    )
    .is_none());
}
