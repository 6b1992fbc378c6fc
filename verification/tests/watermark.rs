use ifunny_scraper::media::IFunnyLink;
use ifunny_scraper::watermark::{
    cropped_height, download_output, strip_watermark, StillError, WATERMARK_HEIGHT,
};

fn png_bytes(width: u32, height: u32) -> Vec<u8> {
    let img = image::DynamicImage::ImageRgb8(image::RgbImage::from_pixel(
        width,
        height,
        image::Rgb([200u8, 10, 10]),
    ));
    let mut png: Vec<u8> = Vec::new();
    img.write_to(&mut std::io::Cursor::new(&mut png), image::ImageFormat::Png)
        .unwrap();
    png
}

#[test]
fn band_height_is_twenty() {
    assert_eq!(WATERMARK_HEIGHT, 20);
}

#[test]
fn cropped_height_is_exact() {
    assert_eq!(cropped_height(100), Some(80));
    assert_eq!(cropped_height(21), Some(1));
    assert_eq!(cropped_height(19), None);
    assert_eq!(cropped_height(0), None);
}

#[test]
fn still_output_is_jpeg_with_band_removed() {
    let out = strip_watermark(&png_bytes(50, 60)).unwrap();
    assert_eq!(image::guess_format(&out).unwrap(), image::ImageFormat::Jpeg);
    let decoded = image::load_from_memory(&out).unwrap();
    assert_eq!(decoded.width(), 50);
    assert_eq!(decoded.height(), 40);
}

#[test]
fn undecodable_bytes_fail_with_decode_error() {
    let garbage = vec![1u8, 2, 3, 4, 5];
    assert!(matches!(
        strip_watermark(&garbage),
        Err(StillError::DecodeFailed)
    ));
    assert_eq!(
        StillError::DecodeFailed.describe(),
        "image decoding failed"
    );
}

#[test]
fn video_download_output_passes_bytes_verbatim() {
    let link = IFunnyLink::Moving("https://x.co/v.mp4".to_string());
    let bytes = vec![9u8, 8, 7, 6];
    assert_eq!(download_output(&link, bytes.clone()), Ok(bytes));
}

#[test]
fn still_download_output_is_the_cropped_jpeg() {
    let link = IFunnyLink::Still("https://x.co/i.png".to_string());
    let out = download_output(&link, png_bytes(30, 50)).unwrap();
    assert_eq!(out, strip_watermark(&png_bytes(30, 50)).unwrap());
    let decoded = image::load_from_memory(&out).unwrap();
    assert_eq!((decoded.width(), decoded.height()), (30, 30));
}

#[test]
fn image_shorter_than_band_fails() {
    assert!(matches!(
        strip_watermark(&png_bytes(10, 10)),
        Err(StillError::TooShort)
    ));
}
