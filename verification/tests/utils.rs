use boardjudge::utils::sha256;
use boardjudge::web::AppError;
use boardjudge::web::ErrorForOption;
use boardjudge::web::ErrorForResult;

#[test]
fn sha256_of_the_empty_input_is_the_known_digest() {
    let d = sha256(b"");
    let expected: [u8; 32] = [
        0xe3, 0xb0, 0xc4, 0x42, 0x98, 0xfc, 0x1c, 0x14, 0x9a, 0xfb, 0xf4, 0xc8, 0x99, 0x6f,
        0xb9, 0x24, 0x27, 0xae, 0x41, 0xe4, 0x64, 0x9b, 0x93, 0x4c, 0xa4, 0x95, 0x99, 0x1b,
        0x78, 0x52, 0xb8, 0x55,
    ];
    assert_eq!(d, expected.to_vec());
}

#[test]
fn sha256_of_abc_is_the_known_digest() {
    let d = sha256(b"abc");
    let expected: [u8; 32] = [
        0xba, 0x78, 0x16, 0xbf, 0x8f, 0x01, 0xcf, 0xea, 0x41, 0x41, 0x40, 0xde, 0x5d, 0xae,
        0x22, 0x23, 0xb0, 0x03, 0x61, 0xa3, 0x96, 0x17, 0x7a, 0x9c, 0xb4, 0x10, 0xff, 0x61,
        0xf2, 0x00, 0x15, 0xad,
    ];
    assert_eq!(d, expected.to_vec());
}

#[test]
fn sha256_always_yields_thirty_two_bytes() {
    assert_eq!(sha256(b"boardjudge").len(), 32);
    assert_ne!(sha256(b"boardjudge"), b"boardjudge".to_vec());
}

#[test]
fn a_present_value_passes_through_each_helper() {
    assert!(matches!(Some(7).found(), Ok(7)));
    assert!(matches!(Some(7).allow(), Ok(7)));
    assert!(matches!(Some(7).good(), Ok(7)));
}

#[test]
fn an_absent_value_maps_to_the_named_class() {
    let r: Result<i32, AppError> = None.found();
    assert!(matches!(r, Err(AppError::NotFound(None))));
    let r: Result<i32, AppError> = None.allow();
    assert!(matches!(r, Err(AppError::Forbidden(None))));
    let r: Result<i32, AppError> = None.good();
    assert!(matches!(r, Err(AppError::BadRequest(None))));
}

#[test]
fn a_failed_operation_keeps_its_message() {
    let r: Result<i32, AppError> = Err("gone".to_string()).found();
    assert!(matches!(r, Err(AppError::NotFound(Some(m))) if m == "gone"));
    let r: Result<i32, AppError> = Err("no".to_string()).allow();
    assert!(matches!(r, Err(AppError::Forbidden(Some(m))) if m == "no"));
    let r: Result<i32, AppError> = Err("bad".to_string()).good();
    assert!(matches!(r, Err(AppError::BadRequest(Some(m))) if m == "bad"));
    let r: Result<i32, AppError> = Ok::<i32, String>(3).found();
    assert!(matches!(r, Ok(3)));
}
