use clipcrab::image::{caption, normalize_image, repair_alpha, ImageError};

#[test]
fn all_transparent_is_made_opaque() {
    let mut b = vec![1, 2, 3, 0, 4, 5, 6, 0, 7, 8, 9, 0];
    assert!(repair_alpha(&mut b));
    assert_eq!(b, vec![1, 2, 3, 255, 4, 5, 6, 255, 7, 8, 9, 255]);
}

#[test]
fn mixed_alpha_is_kept() {
    let mut b = vec![1, 2, 3, 0, 4, 5, 6, 255];
    assert!(!repair_alpha(&mut b));
    assert_eq!(b, vec![1, 2, 3, 0, 4, 5, 6, 255]);
}

#[test]
fn uniform_half_alpha_is_kept() {
    let mut b = vec![1, 2, 3, 128, 4, 5, 6, 128];
    assert!(!repair_alpha(&mut b));
    assert_eq!(b, vec![1, 2, 3, 128, 4, 5, 6, 128]);
}

#[test]
fn empty_buffer_is_unchanged() {
    let mut b: Vec<u8> = Vec::new();
    assert!(repair_alpha(&mut b));
    assert!(b.is_empty());
}

#[test]
fn caption_gives_dimensions() {
    assert_eq!(caption(3, 2), "Image (3x2)");
    assert_eq!(caption(1920, 1080), "Image (1920x1080)");
    assert_eq!(caption(0, 10), "Image (0x10)");
}

#[test]
fn wrong_length_is_malformed() {
    assert!(matches!(normalize_image(2, 2, vec![0; 15]), Err(ImageError::Malformed)));
    assert!(matches!(normalize_image(2, 2, vec![0; 17]), Err(ImageError::Malformed)));
    assert!(matches!(normalize_image(usize::MAX, 2, vec![0; 8]), Err(ImageError::Malformed)));
}

#[test]
fn normalized_image_is_png_in_base64() {
    let img = normalize_image(2, 1, vec![255, 0, 0, 0, 0, 255, 0, 0]).unwrap();
    assert_eq!(img.caption, "Image (2x1)");
    // the PNG signature, base64-encoded
    assert!(img.payload.starts_with("iVBORw0KGgo"));
    let other = normalize_image(2, 1, vec![255, 0, 0, 255, 0, 255, 0, 255]).unwrap();
    // all-transparent pixels were made opaque before encoding
    assert_eq!(img.payload, other.payload);
}

#[test]
fn image_without_pixels_cannot_be_encoded() {
    assert!(matches!(normalize_image(0, 5, Vec::new()), Err(ImageError::Encoding)));
    assert!(matches!(normalize_image(3, 0, Vec::new()), Err(ImageError::Encoding)));
}
