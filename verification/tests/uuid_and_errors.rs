use hello_actix::{error_body, error_body_with, gen_uuid, uuid_simple};

#[test]
fn gen_uuid_is_32_lowercase_hex_of_a_v4_uuid() {
    for _ in 0..50 {
        let s = gen_uuid();
        assert_eq!(s.len(), 32);
        assert!(s.chars().all(|c| c.is_ascii_digit() || ('a'..='f').contains(&c)));
        assert_eq!(s.as_bytes()[12], b'4');
        assert!(matches!(s.as_bytes()[16], b'8' | b'9' | b'a' | b'b'));
        let parsed = uuid::Uuid::parse_str(&s).unwrap();
        assert_eq!(parsed.get_version_num(), 4);
    }
}

#[test]
fn gen_uuid_gives_different_values() {
    assert_ne!(gen_uuid(), gen_uuid());
}

#[test]
fn uuid_simple_is_the_hex_of_the_bytes() {
    let bytes = [
        0xa1, 0xa2, 0xa3, 0xa4, 0xb1, 0xb2, 0xc1, 0xc2, 0xd1, 0xd2, 0xd3, 0xd4, 0xd5, 0xd6, 0xd7, 0x08,
    ];
    assert_eq!(uuid_simple(bytes), "a1a2a3a4b1b2c1c2d1d2d3d4d5d6d708");
    assert_eq!(uuid_simple([0u8; 16]), "00000000000000000000000000000000");
    assert_eq!(uuid_simple(bytes), uuid::Uuid::from_bytes(bytes).to_string().replace("-", ""));
}

#[test]
fn error_body_of_known_statuses() {
    assert_eq!(error_body(404), r#"{"code":404,"message":"Not Found"}"#);
    assert_eq!(error_body(500), r#"{"code":500,"message":"Internal Server Error"}"#);
    assert_eq!(error_body(503), r#"{"code":503,"message":"Service Unavailable"}"#);
}

#[test]
fn error_body_of_a_status_without_reason_has_empty_message() {
    assert_eq!(error_body(599), r#"{"code":599,"message":""}"#);
}

#[test]
fn error_body_with_writes_the_reason_as_is() {
    assert_eq!(error_body_with(418, "I'm a \"teapot\""), r#"{"code":418,"message":"I'm a "teapot""}"#);
}
