use ipc_codegen::codec::{decode_record, encode_record, encode_value, Value, WireKind};

#[test]
fn value_encodings_are_little_endian_fixed_width() {
    assert_eq!(encode_value(&Value::Unit), Vec::<u8>::new());
    assert_eq!(encode_value(&Value::Bool(false)), vec![0u8]);
    assert_eq!(encode_value(&Value::Bool(true)), vec![1u8]);
    assert_eq!(encode_value(&Value::U8(0xAB)), vec![0xABu8]);
    assert_eq!(encode_value(&Value::I32(2)), vec![2u8, 0, 0, 0]);
    assert_eq!(encode_value(&Value::I32(-1)), vec![0xFFu8, 0xFF, 0xFF, 0xFF]);
    assert_eq!(encode_value(&Value::U64(1)), vec![1u8, 0, 0, 0, 0, 0, 0, 0]);
    assert_eq!(
        encode_value(&Value::U64(u64::MAX)),
        vec![0xFFu8, 0xFF, 0xFF, 0xFF, 0xFF, 0xFF, 0xFF, 0xFF]
    );
}

#[test]
fn record_round_trip_concrete() {
    let record = vec![
        Value::I32(-123456),
        Value::U64(u64::MAX),
        Value::Bool(true),
        Value::U8(7),
        Value::Unit,
        Value::I32(i32::MIN),
        Value::I32(i32::MAX),
    ];
    let shape = vec![
        WireKind::I32,
        WireKind::U64,
        WireKind::Bool,
        WireKind::U8,
        WireKind::Unit,
        WireKind::I32,
        WireKind::I32,
    ];
    let bytes = encode_record(&record);
    assert_eq!(bytes.len(), 4 + 8 + 1 + 1 + 0 + 4 + 4);
    let decoded = decode_record(&shape, &bytes).expect("a record's own encoding must decode");
    assert_eq!(decoded, record);
}

#[test]
fn empty_record_round_trip() {
    let record: Vec<Value> = vec![];
    let shape: Vec<WireKind> = vec![];
    let bytes = encode_record(&record);
    assert!(bytes.is_empty());
    let decoded = decode_record(&shape, &bytes).expect("the empty record must decode");
    assert!(decoded.is_empty());
}

#[test]
fn truncated_payload_is_rejected() {
    let shape = vec![WireKind::I32];
    assert!(decode_record(&shape, &[2u8, 0, 0]).is_none());
}

#[test]
fn leftover_bytes_are_rejected() {
    let shape = vec![WireKind::U8];
    assert!(decode_record(&shape, &[1u8, 2u8]).is_none());
}

#[test]
fn invalid_bool_byte_is_rejected() {
    let shape = vec![WireKind::Bool];
    assert!(decode_record(&shape, &[2u8]).is_none());
    assert_eq!(decode_record(&shape, &[0u8]), Some(vec![Value::Bool(false)]));
    assert_eq!(decode_record(&shape, &[1u8]), Some(vec![Value::Bool(true)]));
}

#[test]
fn unit_field_takes_no_bytes() {
    let shape = vec![WireKind::Unit, WireKind::U8];
    let decoded = decode_record(&shape, &[9u8]).expect("unit consumes nothing");
    assert_eq!(decoded, vec![Value::Unit, Value::U8(9)]);
}
