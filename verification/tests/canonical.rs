//! The canonical encoding: shortest forms, sorted keys, and everything else refused.
use spindle::proto::canonical::{
    canonical_decode, canonical_encode, CborError, CborValue, MAX_NESTING_DEPTH,
};

fn rt(v: &CborValue) -> Vec<u8> {
    let bytes = canonical_encode(v);
    let decoded = canonical_decode(&bytes).expect("round-trip decode");
    assert_eq!(&decoded, v, "decoded value differs from what was encoded");
    let re_encoded = canonical_encode(&decoded);
    assert_eq!(bytes, re_encoded, "re-encoding decoded value changed bytes");
    bytes
}

#[test]
fn uint_shortest_form_boundaries() {
    assert_eq!(rt(&CborValue::Uint(0)), vec![0x00]);
    assert_eq!(rt(&CborValue::Uint(23)), vec![0x17]);
    assert_eq!(rt(&CborValue::Uint(24)), vec![0x18, 24]);
    assert_eq!(rt(&CborValue::Uint(255)), vec![0x18, 0xff]);
    assert_eq!(rt(&CborValue::Uint(256)), vec![0x19, 0x01, 0x00]);
    assert_eq!(rt(&CborValue::Uint(65535)), vec![0x19, 0xff, 0xff]);
    assert_eq!(
        rt(&CborValue::Uint(65536)),
        vec![0x1a, 0x00, 0x01, 0x00, 0x00]
    );
    assert_eq!(
        rt(&CborValue::Uint(4_294_967_295)),
        vec![0x1a, 0xff, 0xff, 0xff, 0xff]
    );
    assert_eq!(
        rt(&CborValue::Uint(4_294_967_296)),
        vec![0x1b, 0, 0, 0, 1, 0, 0, 0, 0]
    );
}

#[test]
fn map_keys_sort_by_length_then_content() {
    let v = CborValue::map(vec![("aa", CborValue::Uint(1)), ("z", CborValue::Uint(2))]);
    let bytes = rt(&v);
    assert_eq!(bytes, vec![0xa2, 0x61, b'z', 0x02, 0x62, b'a', b'a', 0x01]);
}

#[test]
fn rejects_non_shortest_form_int() {
    let err = canonical_decode(&[0x18, 0x05]).unwrap_err();
    assert_eq!(err, CborError::NonShortestForm { offset: 0 });
}

#[test]
fn rejects_indefinite_length_array() {
    let err = canonical_decode(&[0x9f, 0x01, 0xff]).unwrap_err();
    assert_eq!(err, CborError::IndefiniteLength { offset: 0 });
}

#[test]
fn rejects_out_of_order_map_keys() {
    let bytes = vec![0xa2, 0x62, b'a', b'a', 0x01, 0x61, b'z', 0x02];
    let err = canonical_decode(&bytes).unwrap_err();
    assert!(matches!(err, CborError::MapKeyOrder { .. }));
}

#[test]
fn rejects_duplicate_map_keys() {
    let bytes = vec![0xa2, 0x61, b'a', 0x01, 0x61, b'a', 0x02];
    let err = canonical_decode(&bytes).unwrap_err();
    assert!(matches!(err, CborError::MapKeyOrder { .. }));
}

#[test]
fn rejects_float() {
    let err = canonical_decode(&[0xfa, 0, 0, 0, 0]).unwrap_err();
    assert!(matches!(err, CborError::FloatNotAllowed { .. }));
}

#[test]
fn rejects_tag() {
    let err = canonical_decode(&[0xc0, 0x00]).unwrap_err();
    assert!(matches!(err, CborError::TagNotAllowed { .. }));
}

#[test]
fn rejects_trailing_bytes() {
    let err = canonical_decode(&[0x00, 0x00]).unwrap_err();
    assert_eq!(err, CborError::TrailingBytes { offset: 1 });
}

#[test]
fn rejects_array_count_exceeding_input() {
    let err =
        canonical_decode(&[0x9b, 0xff, 0xff, 0xff, 0xff, 0xff, 0xff, 0xff, 0xff]).unwrap_err();
    assert!(matches!(err, CborError::UnexpectedEof { .. }));

    let err = canonical_decode(&[0x9a, 0xff, 0xff, 0xff, 0xff]).unwrap_err();
    assert!(matches!(err, CborError::UnexpectedEof { .. }));
}

#[test]
fn rejects_map_count_exceeding_input() {
    let err =
        canonical_decode(&[0xbb, 0xff, 0xff, 0xff, 0xff, 0xff, 0xff, 0xff, 0xff]).unwrap_err();
    assert!(matches!(err, CborError::UnexpectedEof { .. }));

    let err = canonical_decode(&[0xba, 0xff, 0xff, 0xff, 0xff]).unwrap_err();
    assert!(matches!(err, CborError::UnexpectedEof { .. }));
}

#[test]
fn count_bound_admits_every_satisfiable_length() {
    let v = canonical_decode(&[0x83, 0x01, 0x02, 0x03]).unwrap();
    assert_eq!(
        v,
        CborValue::array(vec![
            CborValue::Uint(1),
            CborValue::Uint(2),
            CborValue::Uint(3)
        ])
    );

    let v = canonical_decode(&[0xa1, 0x01, 0x02]).unwrap();
    assert_eq!(
        v,
        CborValue::Mapping(vec![(CborValue::Uint(1), CborValue::Uint(2))])
    );

    assert_eq!(canonical_decode(&[0x80]).unwrap(), CborValue::array(vec![]));
    assert_eq!(canonical_decode(&[0xa0]).unwrap(), CborValue::Mapping(vec![]));
}

#[test]
fn count_bound_rejects_one_past_the_limit() {
    let err = canonical_decode(&[0x84, 0x01, 0x02, 0x03]).unwrap_err();
    assert!(matches!(err, CborError::UnexpectedEof { .. }));
    let err = canonical_decode(&[0xa2, 0x01, 0x02, 0x03]).unwrap_err();
    assert!(matches!(err, CborError::UnexpectedEof { .. }));
}

#[test]
fn accepts_nesting_up_to_the_limit() {
    let mut bytes = vec![0x81u8; MAX_NESTING_DEPTH];
    bytes.push(0x00);
    assert!(canonical_decode(&bytes).is_ok());
}

#[test]
fn rejects_nesting_past_the_limit() {
    let mut bytes = vec![0x81u8; MAX_NESTING_DEPTH + 1];
    bytes.push(0x00);
    let err = canonical_decode(&bytes).unwrap_err();
    assert!(matches!(err, CborError::DepthLimitExceeded { .. }));
}

#[test]
fn deep_payload_that_previously_aborted_is_now_rejected() {
    let mut bytes = vec![0x81u8; 20_000];
    bytes.push(0x00);
    let err = canonical_decode(&bytes).unwrap_err();
    assert!(matches!(err, CborError::DepthLimitExceeded { .. }));
}

#[test]
fn depth_limit_applies_through_maps_too() {
    let mut bytes = Vec::new();
    for _ in 0..(MAX_NESTING_DEPTH + 1) {
        bytes.push(0xa1);
        bytes.push(0x00);
    }
    bytes.push(0x00);
    let err = canonical_decode(&bytes).unwrap_err();
    assert!(matches!(err, CborError::DepthLimitExceeded { .. }));
}

#[test]
fn byte_string_and_array_round_trip() {
    rt(&CborValue::Bytes(vec![0xde, 0xad, 0xbe, 0xef]));
    rt(&CborValue::array(vec![
        CborValue::Uint(1),
        CborValue::Uint(2),
        CborValue::Uint(3),
    ]));
    rt(&CborValue::Bool(true));
    rt(&CborValue::Bool(false));
    rt(&CborValue::Null);
}
