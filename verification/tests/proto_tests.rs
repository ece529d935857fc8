use orbit::proto::{
    encode_field_bytes, encode_field_varint, encode_varint, make_timestamp, make_ws_info,
    parse_proto, ProtoFieldsExt, WireValue,
};

#[test]
fn test_varint_roundtrip() {
    for val in [0u64, 1, 127, 128, 300, 16384, u32::MAX as u64, u64::MAX] {
        let _enc = encode_varint(val);
        let fields = parse_proto(&encode_field_varint(1, val));
        assert_eq!(fields.get_first_varint(1), Some(val));
    }
}

#[test]
fn test_bytes_field_roundtrip() {
    let msg = b"Hello world protobuf";
    let enc = encode_field_bytes(5, msg);
    let parsed = parse_proto(&enc);
    assert_eq!(parsed.get_first_bytes(5), Some(msg.as_slice()));
    assert_eq!(parsed.get_first_string(5), Some("Hello world protobuf".to_string()));
}

#[test]
fn test_make_timestamp() {
    let ts = make_timestamp(1700000000, 123456);
    let parsed = parse_proto(&ts);
    assert_eq!(parsed.get_first_varint(1), Some(1700000000));
    assert_eq!(parsed.get_first_varint(2), Some(123456));
}

#[test]
fn test_make_ws_info() {
    let ws = make_ws_info(
        "file:///etc/nixos",
        "Orbit-Nix/orbit-config",
        "git@github.com:Orbit-Nix/orbit-config.git",
        "main",
    );
    let parsed = parse_proto(&ws);
    assert_eq!(parsed.get_first_string(1), Some("file:///etc/nixos".to_string()));
    assert_eq!(parsed.get_first_string(2), Some("file:///etc/nixos".to_string()));
    assert_eq!(parsed.get_first_string(4), Some("main".to_string()));

    let repo_bytes = parsed.get_first_bytes(3).expect("repo_msg");
    let repo_parsed = parse_proto(repo_bytes);
    assert_eq!(repo_parsed.get_first_string(1), Some("Orbit-Nix/orbit-config".to_string()));
    assert_eq!(
        repo_parsed.get_first_string(2),
        Some("git@github.com:Orbit-Nix/orbit-config.git".to_string())
    );
}

#[test]
fn varint_encodings_are_exact() {
    assert_eq!(encode_varint(0), vec![0x00]);
    assert_eq!(encode_varint(1), vec![0x01]);
    assert_eq!(encode_varint(127), vec![0x7f]);
    assert_eq!(encode_varint(128), vec![0x80, 0x01]);
    assert_eq!(encode_varint(300), vec![0xac, 0x02]);
    assert_eq!(
        encode_varint(u64::MAX),
        vec![0xff, 0xff, 0xff, 0xff, 0xff, 0xff, 0xff, 0xff, 0xff, 0x01]
    );
}

#[test]
fn field_encodings_are_exact() {
    assert_eq!(encode_field_varint(1, 150), vec![0x08, 0x96, 0x01]);
    assert_eq!(encode_field_bytes(2, b"hi"), vec![0x12, 0x02, b'h', b'i']);
    assert_eq!(make_timestamp(1, 2), vec![0x08, 0x01, 0x10, 0x02]);
}

#[test]
fn parse_keeps_values_in_order_per_field() {
    let mut msg = encode_field_varint(3, 7);
    msg.extend(encode_field_bytes(3, b"x"));
    msg.extend(encode_field_varint(3, 9));
    let fields = parse_proto(&msg);
    assert_eq!(
        fields.get(&3),
        Some(&vec![WireValue::Varint(7), WireValue::Bytes(b"x".to_vec()), WireValue::Varint(9)])
    );
    assert_eq!(fields.get_first_varint(3), Some(7));
    assert_eq!(fields.get_first_bytes(3), Some(b"x".as_slice()));
    assert_eq!(fields.get_first_varint(4), None);
}

#[test]
fn parse_reads_fixed_width_values() {
    // field 1, wire type 1 (64-bit), then field 2, wire type 5 (32-bit)
    let msg = vec![0x09, 1, 2, 3, 4, 5, 6, 7, 8, 0x15, 9, 10, 11, 12];
    let fields = parse_proto(&msg);
    assert_eq!(fields.get(&1), Some(&vec![WireValue::Fixed64([1, 2, 3, 4, 5, 6, 7, 8])]));
    assert_eq!(fields.get(&2), Some(&vec![WireValue::Fixed32([9, 10, 11, 12])]));
}

#[test]
fn parse_stops_at_truncated_input_keeping_earlier_fields() {
    let mut msg = encode_field_varint(1, 5);
    msg.extend([0x12, 0x05, b'a']); // field 2 claims 5 bytes, only 1 follows
    let fields = parse_proto(&msg);
    assert_eq!(fields.len(), 1);
    assert_eq!(fields.get_first_varint(1), Some(5));
    // a truncated varint
    let fields = parse_proto(&[0x08, 0x80]);
    assert!(fields.is_empty());
}

#[test]
fn parse_stops_at_unknown_wire_type() {
    let mut msg = encode_field_varint(1, 5);
    msg.push(0x0b); // field 1, wire type 3
    msg.extend(encode_field_varint(2, 6));
    let fields = parse_proto(&msg);
    assert_eq!(fields.len(), 1);
    assert_eq!(fields.get_first_varint(2), None);
}

#[test]
fn parse_rejects_overlong_varint() {
    // eleven continuation bytes: the key varint is too long
    let msg = vec![0x80u8; 11];
    assert!(parse_proto(&msg).is_empty());
}

#[test]
fn first_string_replaces_invalid_utf8() {
    let fields = parse_proto(&encode_field_bytes(1, &[0x61, 0xff, 0x62]));
    assert_eq!(fields.get_first_string(1), Some("a\u{fffd}b".to_string()));
    assert_eq!(fields.get_first_string(2), None);
}

#[test]
fn empty_input_has_no_fields() {
    assert!(parse_proto(&[]).is_empty());
}
