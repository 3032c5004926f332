use mqtt_toolkit::error::Error;

#[test]
fn errors_equal_by_kind_and_text() {
    assert_eq!(Error::EncodeFailed("x".to_string()), Error::EncodeFailed("x".to_string()));
    assert_ne!(Error::EncodeFailed("x".to_string()), Error::EncodeFailed("y".to_string()));
    assert_ne!(Error::EncodeFailed("x".to_string()), Error::InvalidPacket("x".to_string()));
    let a = Error::TokioErr(std::io::Error::new(std::io::ErrorKind::Other, "a"));
    let b = Error::TokioErr(std::io::Error::new(std::io::ErrorKind::NotFound, "b"));
    assert_eq!(a, b);
    assert_ne!(a, Error::LoggerError("a".to_string()));
}
