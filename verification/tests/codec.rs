use climbhub::repositories::common::{DecodeError, RelativeId};

#[test]
fn test_from_str() {
    let id = RelativeId::from_str("0199-58B583BD").unwrap();
    assert_eq!(id.source_id, 409);
    assert_eq!(id.resource_id, 1488290749);
}

#[test]
fn test_to_string() {
    let id = RelativeId::from_str("0199-58B583BD").unwrap();
    assert_eq!(id.to_string(), "0199-58B583BD");
}

#[test]
fn decode_rejects_malformed_identifiers() {
    assert!(matches!(RelativeId::from_str("bad-id"), Err(DecodeError)));
    assert!(matches!(RelativeId::from_str("0199"), Err(DecodeError)));
    assert!(matches!(RelativeId::from_str(""), Err(DecodeError)));
    assert!(matches!(RelativeId::from_str("-"), Err(DecodeError)));
    assert!(matches!(RelativeId::from_str("0199-"), Err(DecodeError)));
    assert!(matches!(RelativeId::from_str("-58B583BD"), Err(DecodeError)));
    assert!(matches!(RelativeId::from_str("10000-00000001"), Err(DecodeError)));
    assert!(matches!(RelativeId::from_str("0001-100000000"), Err(DecodeError)));
    assert!(matches!(RelativeId::from_str("0001-0000-0001"), Err(DecodeError)));
    assert!(matches!(RelativeId::from_str("+001-00000001"), Err(DecodeError)));
}

#[test]
fn encode_is_fixed_width_and_upper_case() {
    assert_eq!(RelativeId { source_id: 409, resource_id: 1488290749 }.to_string(), "0199-58B583BD");
    assert_eq!(RelativeId { source_id: 0, resource_id: 0 }.to_string(), "0000-00000000");
    assert_eq!(RelativeId { source_id: 0xFFFF, resource_id: 0xFFFFFFFF }.to_string(), "FFFF-FFFFFFFF");
    assert_eq!(RelativeId { source_id: 0xABC, resource_id: 0xDEF }.to_string(), "0ABC-00000DEF");
}

#[test]
fn decode_accepts_lower_case_and_short_fields() {
    let id = RelativeId::from_str("0199-58b583bd").unwrap();
    assert_eq!((id.source_id, id.resource_id), (409, 1488290749));
    assert_eq!(id.to_string(), "0199-58B583BD");
    let id = RelativeId::from_str("aB-Cd").unwrap();
    assert_eq!((id.source_id, id.resource_id), (0xAB, 0xCD));
    let id = RelativeId::from_str("000000ffff-0000000000ffffffff").unwrap();
    assert_eq!((id.source_id, id.resource_id), (0xFFFF, 0xFFFFFFFF));
}

#[test]
fn decode_of_encode_is_the_pair() {
    for s in [0u16, 1, 15, 16, 255, 256, 409, 4095, 4096, 65534, 65535] {
        for l in [0u32, 1, 9, 10, 255, 65535, 65536, 1488290749, u32::MAX - 1, u32::MAX] {
            let text = RelativeId { source_id: s, resource_id: l }.to_string();
            assert_eq!(text.len(), 13);
            let back = RelativeId::from_str(&text).unwrap();
            assert_eq!((back.source_id, back.resource_id), (s, l));
        }
    }
}

#[test]
fn encode_of_decode_is_the_canonical_text() {
    for text in ["0000-00000000", "0199-58B583BD", "FFFF-FFFFFFFF", "00A0-0000B00C"] {
        assert_eq!(RelativeId::from_str(text).unwrap().to_string(), text);
    }
}
