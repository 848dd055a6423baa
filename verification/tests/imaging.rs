use notecypher::imaging::{
    decode_image, decode_rgba, encode_png_rgb, encode_png_rgba, to_rgb, white_image, PixelLayout, RgbPixels, RgbaPixels,
};

#[test]
fn white_image_is_all_white() {
    let img = white_image(4, 3);
    assert_eq!((img.width, img.height), (4, 3));
    assert_eq!(img.data.len(), 36);
    assert!(img.data.iter().all(|&b| b == 255));
}

#[test]
fn empty_white_image() {
    let img = white_image(0, 5);
    assert_eq!(img.data.len(), 0);
}

#[test]
fn rgb_png_decodes_back_with_opaque_alpha() {
    let img = white_image(3, 2);
    let png = encode_png_rgb(&img).unwrap();
    assert!(png.starts_with(&[0x89, b'P', b'N', b'G']));
    let back = decode_rgba(&png).unwrap();
    assert_eq!((back.width, back.height), (3, 2));
    assert_eq!(back.data, vec![255u8; 24]);
}

#[test]
fn rgba_png_round_trip() {
    let img = RgbaPixels { width: 2, height: 1, data: vec![10, 20, 30, 255, 40, 50, 60, 128] };
    let png = encode_png_rgba(&img).unwrap();
    assert_ne!(png, img.data);
    let back = decode_rgba(&png).unwrap();
    assert_eq!((back.width, back.height), (2, 1));
    assert_eq!(back.data, img.data);
}

#[test]
fn rgb_conversion_drops_alpha() {
    let img = RgbaPixels { width: 2, height: 1, data: vec![10, 20, 30, 255, 40, 50, 60, 255] };
    let rgb = to_rgb(img);
    assert_eq!((rgb.width, rgb.height), (2, 1));
    assert_eq!(rgb.data, vec![10, 20, 30, 40, 50, 60]);
}

#[test]
fn garbage_does_not_decode() {
    let r = decode_rgba(&[1, 2, 3, 4]);
    assert!(r.is_err());
    assert!(!r.unwrap_err().is_empty());
}

#[test]
fn images_without_pixels_do_not_encode() {
    assert!(encode_png_rgb(&white_image(0, 5)).is_err());
    assert!(encode_png_rgb(&white_image(5, 0)).is_err());
    let empty = RgbaPixels { width: 3, height: 0, data: vec![] };
    assert!(encode_png_rgba(&empty).is_err());
    assert!(encode_png_rgb(&white_image(1, 1)).is_ok());
}

#[test]
fn png_files_start_with_the_signature_and_decode_back() {
    let img = RgbaPixels { width: 3, height: 1, data: vec![1, 2, 3, 4, 5, 6, 7, 8, 9, 10, 11, 12] };
    let png = encode_png_rgba(&img).unwrap();
    assert_eq!(&png[..8], &[137, 80, 78, 71, 13, 10, 26, 10]);
    assert_eq!(decode_rgba(&png).unwrap().data, img.data);
    let rgb = notecypher::imaging::RgbPixels { width: 1, height: 2, data: vec![1, 2, 3, 4, 5, 6] };
    let png = encode_png_rgb(&rgb).unwrap();
    assert_eq!(&png[..8], &[137, 80, 78, 71, 13, 10, 26, 10]);
    assert_eq!(decode_rgba(&png).unwrap().data, vec![1, 2, 3, 255, 4, 5, 6, 255]);
}

#[test]
fn decoding_keeps_the_colour_type_and_pixels() {
    let rgb = RgbPixels { width: 2, height: 2, data: vec![1, 2, 3, 4, 5, 6, 7, 8, 9, 10, 11, 12] };
    let back = decode_image(&encode_png_rgb(&rgb).unwrap()).unwrap();
    assert_eq!((back.width, back.height, back.layout), (2, 2, PixelLayout::Rgb8));
    assert_eq!(back.data, rgb.data);
    let rgba = RgbaPixels { width: 1, height: 2, data: vec![9, 8, 7, 6, 5, 4, 3, 2] };
    let back = decode_image(&encode_png_rgba(&rgba).unwrap()).unwrap();
    assert_eq!((back.width, back.height, back.layout), (1, 2, PixelLayout::Rgba8));
    assert_eq!(back.data, rgba.data);
}

#[test]
fn decoding_agrees_with_load_from_memory() {
    let rgb = RgbPixels { width: 3, height: 1, data: vec![0, 50, 100, 150, 200, 250, 1, 2, 3] };
    let png = encode_png_rgb(&rgb).unwrap();
    let theirs = image::load_from_memory(&png).unwrap();
    let ours = decode_image(&png).unwrap();
    assert_eq!(theirs.color(), image::ColorType::Rgb8);
    assert_eq!(ours.data, theirs.as_bytes().to_vec());
    assert_eq!(decode_rgba(&png).unwrap().data, theirs.to_rgba8().into_raw());
    for bytes in [vec![1u8, 2, 3, 4], b"BM not really a bitmap".to_vec(), vec![], png[..20].to_vec()] {
        let expected = image::load_from_memory(&bytes).unwrap_err().to_string();
        assert_eq!(decode_rgba(&bytes).unwrap_err(), expected);
        assert_eq!(decode_image(&bytes).unwrap_err(), expected);
    }
}
