use wnacg_downloader::images::{
    image_bytes_to_save, image_file_name, image_file_stem, image_format_of, keep_file_on_resume,
    plan_image_save, DownloadFormat, ImageFailure, ImgFormat,
};
use wnacg_downloader::naming::{build_download_dir_name, filename_filter, truncate_utf8_by_bytes};

#[test]
fn filename_filter_replaces_forbidden_characters() {
    assert_eq!(
        filename_filter("a\\b/c:d*e?f\"g<h>i|j"),
        "a b c：d⭐e？f'g《h》i丨j"
    );
    assert_eq!(filename_filter("  /title/  "), "title");
}

#[test]
fn truncation_respects_the_byte_budget() {
    assert_eq!(truncate_utf8_by_bytes("hello world", 7), "hello w");
    assert_eq!(truncate_utf8_by_bytes("hello world", 6), "hello");
    assert_eq!(truncate_utf8_by_bytes("ab", 5), "ab");
    assert_eq!(truncate_utf8_by_bytes("漫画", 4), "漫");
    assert_eq!(truncate_utf8_by_bytes("漫画", 2), "");
    for max in 0..20 {
        assert!(truncate_utf8_by_bytes("漫画 ab 🎉 c", max).len() <= max);
    }
}

#[test]
fn download_dir_names() {
    assert_eq!(build_download_dir_name(5, "  a/b:c  "), "a b：c");
    assert_eq!(build_download_dir_name(5, "   "), "5");
    assert_eq!(build_download_dir_name(-5, "/"), "-5");
    let long = "a".repeat(200);
    let name = build_download_dir_name(5, &long);
    assert_eq!(name, format!("{} [5]", "a".repeat(176)));
    let wide = "漫".repeat(70);
    let name = build_download_dir_name(12, &wide);
    assert_eq!(name, format!("{} [12]", "漫".repeat(58)));
    assert!(name.len() <= 180);
}

#[test]
fn image_formats_are_told_by_their_first_bytes() {
    let png = vec![0x89u8, b'P', b'N', b'G', 0x0d, 0x0a, 0x1a, 0x0a, 0, 0];
    assert_eq!(image_format_of(&png), Ok(ImgFormat::Png));
    assert_eq!(image_format_of(&vec![0xffu8, 0xd8, 0xff, 0xe0]), Ok(ImgFormat::Jpeg));
    assert_eq!(image_format_of(&b"GIF89a...".to_vec()), Ok(ImgFormat::Gif));
    assert_eq!(image_format_of(&b"RIFF\x01\x02\x03\x04WEBPVP8 ".to_vec()), Ok(ImgFormat::WebP));
    assert_eq!(image_format_of(&b"BM......".to_vec()), Ok(ImgFormat::Other));
    assert_eq!(image_format_of(&b"hello".to_vec()), Err(ImageFailure::UnknownFormat));
    assert_eq!(image_format_of(&b"\0\0\x12\x34ftypavif".to_vec()), Ok(ImgFormat::Other));
    assert_eq!(image_format_of(&b"P6 1 1 255".to_vec()), Ok(ImgFormat::Other));
    assert_eq!(image_format_of(&b"P8".to_vec()), Err(ImageFailure::UnknownFormat));
    assert_eq!(image_format_of(&b"qoif".to_vec()), Ok(ImgFormat::Other));
    assert_eq!(image_format_of(&Vec::new()), Err(ImageFailure::UnknownFormat));
}

#[test]
fn save_plans() {
    let plan = plan_image_save(ImgFormat::Png, DownloadFormat::Jpeg).unwrap();
    assert_eq!((plan.extension, plan.target), ("jpg", ImgFormat::Jpeg));
    let plan = plan_image_save(ImgFormat::Gif, DownloadFormat::Jpeg).unwrap();
    assert_eq!((plan.extension, plan.target), ("gif", ImgFormat::Gif));
    let plan = plan_image_save(ImgFormat::WebP, DownloadFormat::Original).unwrap();
    assert_eq!((plan.extension, plan.target), ("webp", ImgFormat::WebP));
    assert!(matches!(
        plan_image_save(ImgFormat::Other, DownloadFormat::Png),
        Err(ImageFailure::UnsupportedFormat(ImgFormat::Other))
    ));
    assert_eq!(DownloadFormat::Webp.extension(), Some("webp"));
    assert_eq!(DownloadFormat::Original.extension(), None);
    assert_eq!(DownloadFormat::Original.cli_name(), "original");
}

fn tiny_png() -> Vec<u8> {
    let img = image::RgbaImage::from_pixel(2, 2, image::Rgba([10, 20, 30, 255]));
    let mut out = Vec::new();
    img.write_to(&mut std::io::Cursor::new(&mut out), image::ImageFormat::Png)
        .unwrap();
    out
}

#[test]
fn image_conversion() {
    let png = tiny_png();
    let same = image_bytes_to_save(&png, ImgFormat::Png, ImgFormat::Png).unwrap();
    assert_eq!(same, png);
    let jpeg = image_bytes_to_save(&png, ImgFormat::Jpeg, ImgFormat::Png).unwrap();
    assert_eq!(image_format_of(&jpeg), Ok(ImgFormat::Jpeg));
    let webp = image_bytes_to_save(&png, ImgFormat::WebP, ImgFormat::Png).unwrap();
    assert_eq!(image_format_of(&webp), Ok(ImgFormat::WebP));
    assert!(matches!(
        image_bytes_to_save(&b"not an image".to_vec(), ImgFormat::Png, ImgFormat::Jpeg),
        Err(ImageFailure::ConversionFailed(_))
    ));
    assert_eq!(
        image_bytes_to_save(&png, ImgFormat::Gif, ImgFormat::Png),
        Err(ImageFailure::UnsupportedFormat(ImgFormat::Gif))
    );
}

#[test]
fn files_kept_on_resume() {
    assert!(keep_file_on_resume("0001.jpg", DownloadFormat::Jpeg));
    assert!(!keep_file_on_resume("0001.png", DownloadFormat::Jpeg));
    assert!(keep_file_on_resume("0001.gif", DownloadFormat::Jpeg));
    assert!(keep_file_on_resume("元数据.json", DownloadFormat::Png));
    assert!(!keep_file_on_resume(".jpg", DownloadFormat::Jpeg));
    assert!(!keep_file_on_resume("noext", DownloadFormat::Jpeg));
    assert!(!keep_file_on_resume("0001.jpg", DownloadFormat::Original));
    assert!(keep_file_on_resume("a.b.png", DownloadFormat::Png));
}

#[test]
fn image_file_names() {
    assert_eq!(image_file_stem(0, "https://x/y/photo.jpg", false), "0001");
    assert_eq!(image_file_stem(41, "https://x/y/photo.jpg", false), "0042");
    assert_eq!(image_file_stem(9999, "https://x/y/photo.jpg", false), "10000");
    assert_eq!(image_file_stem(0, "https://x/y/photo.name.jpg", true), "photo");
    assert_eq!(image_file_stem(0, "noslash", true), "noslash");
    assert_eq!(image_file_name("0001", "jpg"), "0001.jpg");
    let stem = image_file_stem(3, "https://x/y/photo.jpg", true);
    let plan = plan_image_save(ImgFormat::Png, DownloadFormat::Jpeg).unwrap();
    assert!(keep_file_on_resume(&image_file_name(&stem, plan.extension), DownloadFormat::Jpeg));
}
