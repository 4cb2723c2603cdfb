use payment_gateway::codec::CodecError;
use payment_gateway::records::{decode_records, encode_records, PaymentCustomRecords};

fn doc_example_map() -> PaymentCustomRecords {
    let mut m = PaymentCustomRecords::new();
    m.insert(1, vec![0x01, 0x02, 0x03, 0x04]);
    m.insert(2, vec![0x05, 0x06, 0x07, 0x08]);
    m.insert(3, vec![0x09, 0x0a, 0x0b, 0x0c]);
    m.insert(4, vec![0x0d, 0x0e, 0x0f, 0x10, 0x01, 0x0d, 0x09, 0x0a, 0x0b, 0x0c]);
    m
}

#[test]
fn empty_map_round_trips() {
    let m = PaymentCustomRecords::new();
    let wire = encode_records(&m);
    assert_eq!(wire, vec![]);
    assert_eq!(decode_records(&wire), Ok(m));
}

#[test]
fn doc_example_wire_form() {
    let wire = encode_records(&doc_example_map());
    assert_eq!(
        wire,
        vec![
            (b"0x1".to_vec(), b"0x01020304".to_vec()),
            (b"0x2".to_vec(), b"0x05060708".to_vec()),
            (b"0x3".to_vec(), b"0x090a0b0c".to_vec()),
            (b"0x4".to_vec(), b"0x0d0e0f10010d090a0b0c".to_vec()),
        ]
    );
}

#[test]
fn map_round_trips() {
    let m = doc_example_map();
    assert_eq!(decode_records(&encode_records(&m)), Ok(m));
}

#[test]
fn insert_out_of_order_is_canonicalized() {
    let mut m = PaymentCustomRecords::new();
    m.insert(3, vec![0x33]);
    m.insert(1, vec![0x11]);
    m.insert(2, vec![0x22]);
    let wire = encode_records(&m);
    assert_eq!(
        wire,
        vec![
            (b"0x1".to_vec(), b"0x11".to_vec()),
            (b"0x2".to_vec(), b"0x22".to_vec()),
            (b"0x3".to_vec(), b"0x33".to_vec()),
        ]
    );
    assert_eq!(decode_records(&wire), Ok(m));
}

#[test]
fn insert_replaces_existing_key() {
    let mut m = PaymentCustomRecords::new();
    m.insert(7, vec![0x01]);
    m.insert(7, vec![0x02]);
    assert_eq!(m.len(), 1);
    assert_eq!(m.get(7), Some(&vec![0x02]));
}

#[test]
fn get_missing_key_is_none() {
    let m = doc_example_map();
    assert_eq!(m.get(99), None);
    assert_eq!(m.get(1), Some(&vec![0x01, 0x02, 0x03, 0x04]));
}

#[test]
fn empty_value_round_trips() {
    let mut m = PaymentCustomRecords::new();
    m.insert(0, vec![]);
    m.insert(u32::MAX, vec![0xff]);
    let wire = encode_records(&m);
    assert_eq!(
        wire,
        vec![
            (b"0x0".to_vec(), b"0x".to_vec()),
            (b"0xffffffff".to_vec(), b"0xff".to_vec()),
        ]
    );
    assert_eq!(decode_records(&wire), Ok(m));
}

#[test]
fn decode_rejects_duplicate_keys() {
    let wire = vec![
        (b"0x1".to_vec(), b"0x11".to_vec()),
        (b"0x1".to_vec(), b"0x22".to_vec()),
    ];
    assert_eq!(decode_records(&wire), Err(CodecError::MalformedEncoding));
}

#[test]
fn decode_rejects_out_of_order_keys() {
    let wire = vec![
        (b"0x2".to_vec(), b"0x22".to_vec()),
        (b"0x1".to_vec(), b"0x11".to_vec()),
    ];
    assert_eq!(decode_records(&wire), Err(CodecError::MalformedEncoding));
}

#[test]
fn decode_rejects_malformed_entries() {
    // key text with no digits
    let wire = vec![(b"0x".to_vec(), b"0x11".to_vec())];
    assert_eq!(decode_records(&wire), Err(CodecError::MalformedEncoding));
    // key out of 32-bit range
    let wire = vec![(b"0x100000000".to_vec(), b"0x11".to_vec())];
    assert_eq!(decode_records(&wire), Err(CodecError::MalformedEncoding));
    // value with an odd digit count
    let wire = vec![(b"0x1".to_vec(), b"0x123".to_vec())];
    assert_eq!(decode_records(&wire), Err(CodecError::MalformedEncoding));
    // value with a non-digit
    let wire = vec![(b"0x1".to_vec(), b"0xzz".to_vec())];
    assert_eq!(decode_records(&wire), Err(CodecError::MalformedEncoding));
}

#[test]
fn default_map_is_empty() {
    let m = PaymentCustomRecords::default();
    assert_eq!(m.len(), 0);
    assert_eq!(m, PaymentCustomRecords::new());
}
