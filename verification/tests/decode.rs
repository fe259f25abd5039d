use pre::decode::{decode_picture, gif_frames, load_picture, picture_format, GifError, PictureError, PictureFormat};

/// A 2 x 1 PNG: a red pixel, then a blue one.
fn png() -> Vec<u8> {
    let img = image::RgbImage::from_raw(2, 1, vec![255, 0, 0, 0, 0, 255]).unwrap();
    let mut out = std::io::Cursor::new(Vec::new());
    img.write_to(&mut out, image::ImageFormat::Png).unwrap();
    out.into_inner()
}

/// A 1 x 1 GIF with two frames (black, then white), 100 ms and 50 ms.
fn two_frame_gif() -> Vec<u8> {
    let mut g = vec![0x47, 0x49, 0x46, 0x38, 0x39, 0x61, 0x01, 0x00, 0x01, 0x00, 0x80, 0x00, 0x00];
    g.extend_from_slice(&[0x00, 0x00, 0x00, 0xff, 0xff, 0xff]);
    for (delay, index) in [(10u8, 0u8), (5, 1)] {
        g.extend_from_slice(&[0x21, 0xf9, 0x04, 0x00, delay, 0x00, 0x00, 0x00]);
        g.extend_from_slice(&[0x2c, 0x00, 0x00, 0x00, 0x00, 0x01, 0x00, 0x01, 0x00, 0x00]);
        let data = if index == 0 { 0x44 } else { 0x4c };
        g.extend_from_slice(&[0x02, 0x02, data, 0x01, 0x00]);
    }
    g.push(0x3b);
    g
}

#[test]
fn format_comes_from_the_extension() {
    assert_eq!(picture_format("a/b/photo.PNG").unwrap(), PictureFormat::Png);
    assert_eq!(picture_format("x.jpeg").unwrap(), PictureFormat::Jpeg);
    assert_eq!(picture_format("x.jpg").unwrap(), PictureFormat::Jpeg);
    assert_eq!(picture_format("x.webp").unwrap(), PictureFormat::WebP);
    assert_eq!(picture_format("x.bmp").unwrap(), PictureFormat::Bmp);
    assert!(matches!(picture_format("x.txt"), Err(PictureError::Format(_))));
    assert!(matches!(picture_format("noextension"), Err(PictureError::Format(_))));
}

#[test]
fn png_decodes_to_rgb() {
    let f = decode_picture(&png(), PictureFormat::Png).unwrap();
    assert_eq!((f.width, f.height), (2, 1));
    assert_eq!(f.pixels, vec![255, 0, 0, 0, 0, 255]);
    let f = load_picture("pic.png", &png()).unwrap();
    assert_eq!(f.pixels, vec![255, 0, 0, 0, 0, 255]);
}

#[test]
fn bad_bytes_or_format_are_errors() {
    assert!(matches!(decode_picture(&[1, 2, 3], PictureFormat::Png), Err(PictureError::Decode(_))));
    assert!(matches!(load_picture("pic.jpg", &png()), Err(PictureError::Decode(_))));
    assert!(matches!(load_picture("pic.doc", &png()), Err(PictureError::Format(_))));
}

#[test]
fn gif_frames_and_delays() {
    let frames = gif_frames(&two_frame_gif()).unwrap();
    assert_eq!(frames.len(), 2);
    assert_eq!((frames[0].width, frames[0].height), (1, 1));
    assert_eq!(frames[0].pixels, vec![0, 0, 0, 255]);
    assert_eq!(frames[1].pixels, vec![255, 255, 255, 255]);
    assert_eq!((frames[0].delay_num, frames[0].delay_den), (100, 1));
    assert_eq!((frames[1].delay_num, frames[1].delay_den), (50, 1));
}

#[test]
fn gif_errors() {
    assert!(matches!(gif_frames(&png()), Err(GifError::Decode(_))));
    let empty = vec![0x47, 0x49, 0x46, 0x38, 0x39, 0x61, 0x01, 0x00, 0x01, 0x00, 0x00, 0x00, 0x00, 0x3b];
    // The GIF decoder already refuses a stream that ends before any frame.
    assert!(matches!(gif_frames(&empty), Err(GifError::Decode(_))));
}
