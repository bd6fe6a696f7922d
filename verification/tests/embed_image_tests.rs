use scriptscore_state::embed_image::{downscale_for_embed, encode_image_for_embed, RgbImage};

fn blank(width: u32, height: u32) -> RgbImage {
    RgbImage { width, height, pixels: vec![200; (3 * width * height) as usize] }
}

#[test]
fn small_images_embed_as_jpeg_within_the_size_limit() {
    let (mime, bytes) = encode_image_for_embed(blank(10, 10), "/tmp/q1.png").expect("encodes");
    assert_eq!(mime, "image/jpeg");
    assert_eq!(&bytes[..2], &[0xff, 0xd8]);
    assert!(bytes.len() <= 51200);
}

#[test]
fn large_images_are_scaled_into_the_embedding_box() {
    let scaled = downscale_for_embed(blank(1280, 840));
    assert_eq!((scaled.width, scaled.height), (640, 420));
    assert_eq!(scaled.pixels.len(), 3 * 640 * 420);
    let kept = downscale_for_embed(blank(300, 200));
    assert_eq!((kept.width, kept.height), (300, 200));
    let (_, bytes) = encode_image_for_embed(blank(1280, 840), "/tmp/q2.png").expect("encodes");
    let decoded = image::load_from_memory(&bytes).expect("decodes");
    assert!(decoded.width() <= 640 && decoded.height() <= 420);
}

#[test]
fn an_image_with_an_empty_side_is_refused_by_the_encoder() {
    let err = encode_image_for_embed(blank(0, 10), "/tmp/q3.png").unwrap_err();
    assert!(err.message().starts_with("Could not encode answer image '/tmp/q3.png' as JPEG: "));
}
