use skylineg::identity::{decode_user_id, identity_of_response};

#[test]
fn decodes_base64_utf8() {
    assert_eq!(decode_user_id("aGVsbG8="), Some("hello".to_string()));
}

#[test]
fn decodes_service_style_identifier() {
    assert_eq!(
        decode_user_id("MDQ6VXNlcjU4MzIzMQ=="),
        Some("04:User583231".to_string())
    );
}

#[test]
fn rejects_invalid_base64() {
    assert_eq!(decode_user_id("!!!"), None);
}

#[test]
fn rejects_unpadded_base64() {
    assert_eq!(decode_user_id("aGVsbG8"), None);
}

#[test]
fn rejects_non_utf8_bytes() {
    assert_eq!(decode_user_id("/w=="), None);
}

#[test]
fn absent_user_yields_absent_identity() {
    assert_eq!(identity_of_response(None), None);
}

#[test]
fn present_user_yields_decoded_identity() {
    assert_eq!(
        identity_of_response(Some("dXNlcjEyMw==".to_string())),
        Some("user123".to_string())
    );
}
