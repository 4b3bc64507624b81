use backend::error::Error;
use backend::utils::{image_check, image_kind, DetectedType};

const PNG: &[u8] = &[
    0x89, 0x50, 0x4e, 0x47, 0x0d, 0x0a, 0x1a, 0x0a, 0x00, 0x00, 0x00, 0x0d, 0x49, 0x48, 0x44, 0x52, 0x00, 0x00,
    0x00, 0x01, 0x00, 0x00, 0x00, 0x01, 0x08, 0x06, 0x00, 0x00, 0x00, 0x1f, 0x15, 0xc4, 0x89, 0x00, 0x00, 0x00,
    0x0d, 0x49, 0x44, 0x41, 0x54, 0x78, 0x9c, 0x63, 0x00, 0x01, 0x00, 0x00, 0x05, 0x00, 0x01, 0x0d, 0x0a, 0x2d,
    0xb4, 0x00, 0x00, 0x00, 0x00, 0x49, 0x45, 0x4e, 0x44, 0xae, 0x42, 0x60, 0x82,
];

#[test]
fn decision_from_detected_types() {
    assert_eq!(image_kind(Some(vec![DetectedType::Jpg])).unwrap(), "jpg");
    assert_eq!(image_kind(Some(vec![DetectedType::Png])).unwrap(), "png");
    for refused in [None, Some(vec![]), Some(vec![DetectedType::Other]), Some(vec![DetectedType::Jpg, DetectedType::Png])] {
        match image_kind(refused) {
            Err(Error::BadRequest(m)) => assert_eq!(m, "Uploaded file is not an image"),
            other => panic!("unexpected {other:?}"),
        }
    }
}

#[test]
fn text_is_not_an_image() {
    match image_check(b"hello, this is plain text and no picture at all") {
        Err(Error::BadRequest(m)) => assert_eq!(m, "Uploaded file is not an image"),
        other => panic!("unexpected {other:?}"),
    }
}

#[test]
fn png_is_recognised() {
    assert_eq!(image_check(PNG).unwrap(), "png");
}
