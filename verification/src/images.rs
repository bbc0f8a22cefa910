//! Image formats: what a downloaded image is, which file it is saved to, in
//! which encoding, and which files of a half-finished download are kept.

use vstd::prelude::*;
use crate::naming::filtered_filename;
use crate::text::{
    chars_equal, chars_of, find_chars, lemma_find_from, nat_decimal, push_char, push_str, rfind_char,
    rfind_char_in, slice_chars, string_of, usize_to_string, find_first,
};

verus! {

/// The format a user asks downloaded images to be saved in.
#[derive(Debug, Clone, Copy, PartialEq, Eq, Structural)]
pub enum DownloadFormat {
    Jpeg,
    Png,
    Webp,
    /// Keep each image in the format it was served in.
    Original,
}

/// The format of an image, as told by its first bytes.
#[derive(Debug, Clone, Copy, PartialEq, Eq, Structural)]
pub enum ImgFormat {
    Png,
    Jpeg,
    Gif,
    WebP,
    /// Any other format the image crate recognises.
    Other,
}

/// Why an image could not be handled.
#[derive(Debug, PartialEq, Eq)]
pub enum ImageFailure {
    /// The data starts like no known image format.
    UnknownFormat,
    /// The image is in a format that downloads are not saved in.
    UnsupportedFormat(ImgFormat),
    /// Decoding or re-encoding failed; the text is the image crate's message.
    ConversionFailed(String),
}

#[verifier::external_type_specification]
#[verifier::external_body]
pub struct ExImageCrateError(image::ImageError);

/// The file extension of a download format (`None` keeps each image's own).
pub open spec fn format_extension(f: DownloadFormat) -> Option<Seq<char>> {
    match f {
        DownloadFormat::Jpeg => Some("jpg"@),
        DownloadFormat::Png => Some("png"@),
        DownloadFormat::Webp => Some("webp"@),
        DownloadFormat::Original => None,
    }
}

/// The image format of a download format (`None` keeps each image's own).
pub open spec fn format_image_format(f: DownloadFormat) -> Option<ImgFormat> {
    match f {
        DownloadFormat::Jpeg => Some(ImgFormat::Jpeg),
        DownloadFormat::Png => Some(ImgFormat::Png),
        DownloadFormat::Webp => Some(ImgFormat::WebP),
        DownloadFormat::Original => None,
    }
}

/// The extension of an image saved in its own format.
pub open spec fn source_extension(f: ImgFormat) -> Option<Seq<char>> {
    match f {
        ImgFormat::Jpeg => Some("jpg"@),
        ImgFormat::Png => Some("png"@),
        ImgFormat::WebP => Some("webp"@),
        ImgFormat::Gif => Some("gif"@),
        ImgFormat::Other => None,
    }
}

impl DownloadFormat {
    /// The file extension of the format (`None` for `Original`).
    pub fn extension(self) -> (r: Option<&'static str>)
        ensures
            match r {
                Some(e) => format_extension(self) == Some(e@),
                None => format_extension(self) is None,
            },
    {
        proof {
            reveal_strlit("jpg");
            reveal_strlit("png");
            reveal_strlit("webp");
        }
        match self {
            DownloadFormat::Jpeg => Some("jpg"),
            DownloadFormat::Png => Some("png"),
            DownloadFormat::Webp => Some("webp"),
            DownloadFormat::Original => None,
        }
    }

    /// The image format to convert to (`None` for `Original`).
    pub fn to_image_format(self) -> (r: Option<ImgFormat>)
        ensures
            r == format_image_format(self),
    {
        match self {
            DownloadFormat::Jpeg => Some(ImgFormat::Jpeg),
            DownloadFormat::Png => Some(ImgFormat::Png),
            DownloadFormat::Webp => Some(ImgFormat::WebP),
            DownloadFormat::Original => None,
        }
    }

    /// The name of the format on the downloader's command line.
    pub fn cli_name(self) -> (r: &'static str)
        ensures
            r@ == match self {
                DownloadFormat::Jpeg => "jpeg"@,
                DownloadFormat::Png => "png"@,
                DownloadFormat::Webp => "webp"@,
                DownloadFormat::Original => "original"@,
            },
    {
        match self {
            DownloadFormat::Jpeg => "jpeg",
            DownloadFormat::Png => "png",
            DownloadFormat::Webp => "webp",
            DownloadFormat::Original => "original",
        }
    }
}

/// `data` starts with the bytes `sig`.
pub open spec fn starts_with_bytes(data: Seq<u8>, sig: Seq<u8>) -> bool {
    sig.len() <= data.len() && data.take(sig.len() as int) == sig
}

/// The signature of a PNG file.
pub open spec fn png_signature() -> Seq<u8> {
    seq![0x89u8, 0x50, 0x4e, 0x47, 0x0d, 0x0a, 0x1a, 0x0a]
}

/// The signature of a JPEG file.
pub open spec fn jpeg_signature() -> Seq<u8> {
    seq![0xffu8, 0xd8, 0xff]
}

/// The signatures of GIF files (`GIF89a`, `GIF87a`).
pub open spec fn is_gif_data(data: Seq<u8>) -> bool {
    starts_with_bytes(data, seq![0x47u8, 0x49, 0x46, 0x38, 0x39, 0x61]) || starts_with_bytes(
        data,
        seq![0x47u8, 0x49, 0x46, 0x38, 0x37, 0x61],
    )
}

/// The signature of a WebP file: `RIFF`, four bytes of length, `WEBP`.
pub open spec fn is_webp_data(data: Seq<u8>) -> bool {
    &&& data.len() >= 12
    &&& data.take(4) == seq![0x52u8, 0x49, 0x46, 0x46]
    &&& data.subrange(8, 12) == seq![0x57u8, 0x45, 0x42, 0x50]
}

/// The signatures of the other formats the image crate recognises by their
/// first bytes: TIFF (both byte orders), DDS, BMP, ICO, Radiance HDR, AVIF
/// (two zero bytes, any two bytes, `ftypavif`), OpenEXR, QOI, PNM (`P1` to
/// `P7`) and farbfeld.
pub open spec fn is_other_image_data(data: Seq<u8>) -> bool {
    ||| starts_with_bytes(data, seq![0x4du8, 0x4d, 0x00, 0x2a])
    ||| starts_with_bytes(data, seq![0x49u8, 0x49, 0x2a, 0x00])
    ||| starts_with_bytes(data, seq![0x44u8, 0x44, 0x53, 0x20])
    ||| starts_with_bytes(data, seq![0x42u8, 0x4d])
    ||| starts_with_bytes(data, seq![0x00u8, 0x00, 0x01, 0x00])
    ||| starts_with_bytes(data, seq![0x23u8, 0x3f, 0x52, 0x41, 0x44, 0x49, 0x41, 0x4e, 0x43, 0x45])
    ||| (data.len() >= 12 && data[0] == 0u8 && data[1] == 0u8 && data.subrange(4, 12) == seq![
        0x66u8,
        0x74,
        0x79,
        0x70,
        0x61,
        0x76,
        0x69,
        0x66,
    ])
    ||| starts_with_bytes(data, seq![0x76u8, 0x2f, 0x31, 0x01])
    ||| starts_with_bytes(data, seq![0x71u8, 0x6f, 0x69, 0x66])
    ||| (data.len() >= 2 && data[0] == 0x50u8 && 0x31u8 <= data[1] <= 0x37u8)
    ||| starts_with_bytes(data, seq![0x66u8, 0x61, 0x72, 0x62, 0x66, 0x65, 0x6c, 0x64])
}

/// Data that starts like one of the four formats downloads are saved in.
pub open spec fn is_saved_format_data(data: Seq<u8>) -> bool {
    ||| starts_with_bytes(data, png_signature())
    ||| starts_with_bytes(data, jpeg_signature())
    ||| is_gif_data(data)
    ||| is_webp_data(data)
}

/// `image::guess_format`, by the image's first bytes (its table of
/// signatures, tried in order, PNG, JPEG, GIF and WebP first): each of the
/// four formats downloads are saved in exactly when its signature matches;
/// `Other` when only another recognised signature matches; `None` when none
/// does.
#[verifier::external_body]
fn guess_image_format(data: &[u8]) -> (r: Option<ImgFormat>)
    ensures
        r == Some(ImgFormat::Png) <==> starts_with_bytes(data@, png_signature()),
        r == Some(ImgFormat::Jpeg) <==> starts_with_bytes(data@, jpeg_signature()),
        r == Some(ImgFormat::Gif) <==> is_gif_data(data@),
        r == Some(ImgFormat::WebP) <==> is_webp_data(data@),
        r == Some(ImgFormat::Other) <==> (is_other_image_data(data@) && !is_saved_format_data(data@)),
        r is None <==> (!is_other_image_data(data@) && !is_saved_format_data(data@)),
{
    match image::guess_format(data) {
        Ok(image::ImageFormat::Png) => Some(ImgFormat::Png),
        Ok(image::ImageFormat::Jpeg) => Some(ImgFormat::Jpeg),
        Ok(image::ImageFormat::Gif) => Some(ImgFormat::Gif),
        Ok(image::ImageFormat::WebP) => Some(ImgFormat::WebP),
        Ok(_) => Some(ImgFormat::Other),
        Err(_) => None,
    }
}

/// The format of a downloaded image, told by its first bytes (`Other` for a
/// format downloads are not saved in); an error exactly when the data starts
/// like no image format the image crate recognises.
pub fn image_format_of(data: &Vec<u8>) -> (r: Result<ImgFormat, ImageFailure>)
    ensures
        r == Ok::<ImgFormat, ImageFailure>(ImgFormat::Png) <==> starts_with_bytes(data@, png_signature()),
        r == Ok::<ImgFormat, ImageFailure>(ImgFormat::Jpeg) <==> starts_with_bytes(data@, jpeg_signature()),
        r == Ok::<ImgFormat, ImageFailure>(ImgFormat::Gif) <==> is_gif_data(data@),
        r == Ok::<ImgFormat, ImageFailure>(ImgFormat::WebP) <==> is_webp_data(data@),
        r == Ok::<ImgFormat, ImageFailure>(ImgFormat::Other) <==> (is_other_image_data(data@)
            && !is_saved_format_data(data@)),
        r == Err::<ImgFormat, ImageFailure>(ImageFailure::UnknownFormat) <==> (!is_other_image_data(
            data@,
        ) && !is_saved_format_data(data@)),
        r is Err ==> r == Err::<ImgFormat, ImageFailure>(ImageFailure::UnknownFormat),
{
    match guess_image_format(data.as_slice()) {
        Some(f) => Ok(f),
        None => Err(ImageFailure::UnknownFormat),
    }
}

/// How an image is saved: the extension of its file and its encoding.
pub struct SavePlan {
    pub extension: &'static str,
    pub target: ImgFormat,
}

/// The extension of an image saved in its own format.
pub fn source_image_extension(f: ImgFormat) -> (r: Result<&'static str, ImageFailure>)
    ensures
        match r {
            Ok(e) => source_extension(f) == Some(e@),
            Err(e) => source_extension(f) is None && e == ImageFailure::UnsupportedFormat(f),
        },
{
    proof {
        reveal_strlit("jpg");
        reveal_strlit("png");
        reveal_strlit("webp");
        reveal_strlit("gif");
    }
    match f {
        ImgFormat::Jpeg => Ok("jpg"),
        ImgFormat::Png => Ok("png"),
        ImgFormat::WebP => Ok("webp"),
        ImgFormat::Gif => Ok("gif"),
        ImgFormat::Other => Err(ImageFailure::UnsupportedFormat(f)),
    }
}

/// How an image served in format `served` is saved when downloads are in
/// `format`: animated GIFs stay GIFs; other images take the asked format,
/// or keep their own for `Original`. Images of other formats are refused.
pub fn plan_image_save(served: ImgFormat, format: DownloadFormat) -> (r: Result<SavePlan, ImageFailure>)
    ensures
        match r {
            Ok(plan) => {
                &&& source_extension(served) is Some
                &&& plan.extension@ == if served == ImgFormat::Gif {
                    "gif"@
                } else {
                    match format_extension(format) {
                        Some(e) => e,
                        None => source_extension(served).unwrap(),
                    }
                }
                &&& plan.target == if served == ImgFormat::Gif {
                    ImgFormat::Gif
                } else {
                    match format_image_format(format) {
                        Some(t) => t,
                        None => served,
                    }
                }
            },
            Err(e) => source_extension(served) is None && e == ImageFailure::UnsupportedFormat(served),
        },
{
    let src_ext = match source_image_extension(served) {
        Ok(e) => e,
        Err(e) => return Err(e),
    };
    proof {
        reveal_strlit("gif");
    }
    let extension = match served {
        ImgFormat::Gif => "gif",
        _ => match format.extension() {
            Some(e) => e,
            None => src_ext,
        },
    };
    let target = match served {
        ImgFormat::Gif => ImgFormat::Gif,
        _ => match format.to_image_format() {
            Some(t) => t,
            None => served,
        },
    };
    Ok(SavePlan { extension, target })
}

/// The bytes of the image `data` decoded and re-encoded as an 8-bit RGB
/// JPEG, or `None` when decoding or encoding fails.
pub uninterp spec fn jpeg_rgb8_encoding(data: Seq<u8>) -> Option<Seq<u8>>;

/// The bytes of the image `data` decoded and re-encoded as an 8-bit RGBA
/// PNG, or `None` when decoding or encoding fails.
pub uninterp spec fn png_rgba8_encoding(data: Seq<u8>) -> Option<Seq<u8>>;

/// The bytes of the image `data` decoded and re-encoded as an 8-bit RGBA
/// WebP, or `None` when decoding or encoding fails.
pub uninterp spec fn webp_rgba8_encoding(data: Seq<u8>) -> Option<Seq<u8>>;

/// `image::load_from_memory`, then `DynamicImage::to_rgb8` and
/// `ImageBuffer::write_to` (JPEG) into memory; the result is named
/// `jpeg_rgb8_encoding`, a function of the data alone.
#[verifier::external_body]
fn encode_jpeg_rgb8(data: &[u8]) -> (r: Result<Vec<u8>, image::ImageError>)
    ensures
        match r {
            Ok(v) => jpeg_rgb8_encoding(data@) == Some(v@),
            Err(_) => jpeg_rgb8_encoding(data@) is None,
        },
{
    let img = image::load_from_memory(data)?;
    let mut out: Vec<u8> = Vec::new();
    img.to_rgb8().write_to(&mut std::io::Cursor::new(&mut out), image::ImageFormat::Jpeg)?;
    Ok(out)
}

/// `image::load_from_memory`, then `DynamicImage::to_rgba8` and
/// `ImageBuffer::write_to` (PNG) into memory; the result is named
/// `png_rgba8_encoding`, a function of the data alone.
#[verifier::external_body]
fn encode_png_rgba8(data: &[u8]) -> (r: Result<Vec<u8>, image::ImageError>)
    ensures
        match r {
            Ok(v) => png_rgba8_encoding(data@) == Some(v@),
            Err(_) => png_rgba8_encoding(data@) is None,
        },
{
    let img = image::load_from_memory(data)?;
    let mut out: Vec<u8> = Vec::new();
    img.to_rgba8().write_to(&mut std::io::Cursor::new(&mut out), image::ImageFormat::Png)?;
    Ok(out)
}

/// `image::load_from_memory`, then `DynamicImage::to_rgba8` and
/// `ImageBuffer::write_to` (WebP) into memory; the result is named
/// `webp_rgba8_encoding`, a function of the data alone.
#[verifier::external_body]
fn encode_webp_rgba8(data: &[u8]) -> (r: Result<Vec<u8>, image::ImageError>)
    ensures
        match r {
            Ok(v) => webp_rgba8_encoding(data@) == Some(v@),
            Err(_) => webp_rgba8_encoding(data@) is None,
        },
{
    let img = image::load_from_memory(data)?;
    let mut out: Vec<u8> = Vec::new();
    img.to_rgba8().write_to(&mut std::io::Cursor::new(&mut out), image::ImageFormat::WebP)?;
    Ok(out)
}

/// The re-encoding of `data` as `target`, as the conversion wrappers name it.
pub open spec fn encoding_as(data: Seq<u8>, target: ImgFormat) -> Option<Seq<u8>> {
    match target {
        ImgFormat::Jpeg => jpeg_rgb8_encoding(data),
        ImgFormat::Png => png_rgba8_encoding(data),
        ImgFormat::WebP => webp_rgba8_encoding(data),
        _ => None,
    }
}

/// The message of an image crate error (its `Display`); nothing is stated of it.
#[verifier::external_body]
fn image_error_text(e: &image::ImageError) -> String {
    e.to_string()
}

/// The bytes to write for an image of format `served` that is saved as
/// `target`: the data itself when the formats agree; else the image
/// re-encoded (RGB for JPEG, RGBA for PNG and WebP); other targets are refused.
pub fn image_bytes_to_save(data: &Vec<u8>, target: ImgFormat, served: ImgFormat) -> (r: Result<
    Vec<u8>,
    ImageFailure,
>)
    ensures
        target == served ==> (r matches Ok(v) && v@ == data@),
        target != served && (target == ImgFormat::Jpeg || target == ImgFormat::Png || target
            == ImgFormat::WebP) ==> match r {
            Ok(v) => encoding_as(data@, target) == Some(v@),
            Err(e) => encoding_as(data@, target) is None && e is ConversionFailed,
        },
        target != served && (target == ImgFormat::Gif || target == ImgFormat::Other) ==> r
            == Err::<Vec<u8>, ImageFailure>(ImageFailure::UnsupportedFormat(target)),
{
    if target == served {
        return Ok(data.clone());
    }
    let converted = match target {
        ImgFormat::Jpeg => encode_jpeg_rgb8(data.as_slice()),
        ImgFormat::Png => encode_png_rgba8(data.as_slice()),
        ImgFormat::WebP => encode_webp_rgba8(data.as_slice()),
        _ => return Err(ImageFailure::UnsupportedFormat(target)),
    };
    match converted {
        Ok(v) => Ok(v),
        Err(e) => Err(ImageFailure::ConversionFailed(image_error_text(&e))),
    }
}

// ---------------------------------------------------------------------------
// File names
// ---------------------------------------------------------------------------

/// `Path::extension` of a file name: the text after the last `.`, unless
/// there is no dot, the only dot starts the name, or the name is `..`.
pub open spec fn file_extension(name: Seq<char>) -> Option<Seq<char>> {
    if name == ".."@ {
        None
    } else {
        match rfind_char(name, '.') {
            None => None,
            Some(p) => if p == 0 {
                None
            } else {
                Some(name.skip(p + 1))
            },
        }
    }
}

/// The name of the metadata file in a download directory.
pub open spec fn metadata_file_name() -> Seq<char> {
    "元数据.json"@
}

/// Whether a file of a half-finished download is kept when the download is
/// resumed in `format`: the metadata file, GIFs, and files of the asked
/// format.
pub open spec fn keeps_file(name: Seq<char>, format: DownloadFormat) -> bool {
    ||| name == metadata_file_name()
    ||| match file_extension(name) {
        Some(e) => e == "gif"@ || Some(e) == format_extension(format),
        None => false,
    }
}

/// `file_extension` on characters.
fn extension_of(name: &Vec<char>) -> (r: Option<Vec<char>>)
    ensures
        match r {
            Some(e) => file_extension(name@) == Some(e@),
            None => file_extension(name@) is None,
        },
{
    proof {
        reveal_strlit("..");
    }
    if name.len() == 2 && name[0] == '.' && name[1] == '.' {
        assert(name@ =~= ".."@);
        return None;
    }
    assert(name@ != ".."@) by {
        if name@ == ".."@ {
            assert(name@.len() == 2 && name@[0] == '.' && name@[1] == '.');
        }
    }
    match rfind_char_in(name, '.') {
        None => None,
        Some(p) => {
            if p == 0 {
                None
            } else {
                proof {
                    crate::text::lemma_rfind_char(name@, '.');
                }
                let e = slice_chars(name, p + 1, name.len());
                assert(e@ =~= name@.skip(p + 1));
                Some(e)
            }
        },
    }
}

/// Whether a file of a half-finished download is kept when the download is
/// resumed in `format` (other files are deleted before downloading again).
pub fn keep_file_on_resume(name: &str, format: DownloadFormat) -> (r: bool)
    ensures
        r == keeps_file(name@, format),
{
    let v = chars_of(name);
    if chars_equal(&v, "元数据.json") {
        return true;
    }
    match extension_of(&v) {
        Some(e) => {
            if chars_equal(&e, "gif") {
                return true;
            }
            match format.extension() {
                Some(x) => chars_equal(&e, x),
                None => false,
            }
        },
        None => false,
    }
}

/// The zero-padded (to four digits) one-based number of an image.
pub open spec fn padded_number(n: nat) -> Seq<char> {
    let d = nat_decimal(n);
    if d.len() < 4 {
        Seq::new((4 - d.len()) as nat, |i: int| '0') + d
    } else {
        d
    }
}

/// The name an image's file gets from its URL: the last path segment up to
/// its first dot, made safe for file systems.
pub open spec fn url_file_stem(url: Seq<char>) -> Seq<char> {
    let segment = match rfind_char(url, '/') {
        Some(p) => url.skip(p + 1),
        None => url,
    };
    let stem = match find_first(segment, seq!['.']) {
        Some(q) => segment.take(q),
        None => segment,
    };
    filtered_filename(stem)
}

/// The file name (without extension) of the image at `index` in a comic:
/// `0001`, `0002`, ... or the name in its URL.
pub open spec fn image_stem(index: usize, url: Seq<char>, use_original_filename: bool) -> Seq<char> {
    if use_original_filename {
        url_file_stem(url)
    } else {
        padded_number(index as nat + 1)
    }
}

/// The file name (without extension) of the image at `index` in a comic.
pub fn image_file_stem(index: usize, url: &str, use_original_filename: bool) -> (r: String)
    requires
        index < usize::MAX,
    ensures
        r@ == image_stem(index, url@, use_original_filename),
{
    if use_original_filename {
        let v = chars_of(url);
        let segment = match rfind_char_in(&v, '/') {
            Some(p) => {
                proof {
                    crate::text::lemma_rfind_char(v@, '/');
                }
                slice_chars(&v, p + 1, v.len())
            },
            None => v,
        };
        let dot = vec!['.'];
        assert(dot@ =~= seq!['.']);
        let stem = match find_chars(&segment, &dot, 0) {
            Some(q) => {
                proof {
                    lemma_find_from(segment@, dot@, 0);
                }
                slice_chars(&segment, 0, q)
            },
            None => segment,
        };
        proof {
            if let Some(p) = rfind_char(v@, '/') {
                assert(v@.subrange(p + 1, v@.len() as int) =~= v@.skip(p + 1));
            }
            if let Some(q) = find_first(segment@, seq!['.']) {
                assert(segment@.subrange(0, q) =~= segment@.take(q));
            }
        }
        let s = string_of(&stem);
        crate::naming::filename_filter(s.as_str())
    } else {
        let digits = usize_to_string(index + 1);
        let dv = chars_of(digits.as_str());
        let mut r = String::new();
        let mut k: usize = dv.len();
        while k < 4
            invariant
                dv@.len() <= k <= 4 || (k == dv@.len() && k >= 4),
                r@ == Seq::new((k - dv@.len()) as nat, |i: int| '0'),
            decreases 4 - k,
        {
            push_char(&mut r, '0');
            k = k + 1;
            assert(r@ =~= Seq::new((k - dv@.len()) as nat, |i: int| '0'));
        }
        push_str(&mut r, digits.as_str());
        proof {
            if dv@.len() >= 4 {
                assert(r@ =~= dv@);
            }
        }
        r
    }
}

/// The file name of an image: its stem, a dot and its extension.
pub fn image_file_name(stem: &str, extension: &str) -> (r: String)
    ensures
        r@ == stem@ + "."@ + extension@,
{
    let mut r = String::from_str(stem);
    push_char(&mut r, '.');
    push_str(&mut r, extension);
    proof {
        reveal_strlit(".");
    }
    assert(r@ =~= stem@ + "."@ + extension@);
    r
}


/// The extension an image served as `served` is saved under when downloads
/// are in `format` (see `plan_image_save`), when `served` is one it saves.
pub open spec fn planned_extension(served: ImgFormat, format: DownloadFormat) -> Seq<char> {
    if served == ImgFormat::Gif {
        "gif"@
    } else {
        match format_extension(format) {
            Some(e) => e,
            None => source_extension(served).unwrap(),
        }
    }
}

/// The files whose presence shows that the image with file stem `stem` was
/// saved by an earlier run of a download in `format`: the file of the asked
/// format and the GIF file; none for `Original`, whose extension is not
/// known before the image is fetched.
pub open spec fn saved_image_name_texts(stem: Seq<char>, format: DownloadFormat) -> Seq<Seq<char>> {
    match format_extension(format) {
        Some(e) => seq![stem + "."@ + e, stem + ".gif"@],
        None => Seq::empty(),
    }
}

/// The files whose presence lets a resumed download skip an image (see
/// `saved_image_name_texts`).
pub fn saved_image_names(stem: &str, format: DownloadFormat) -> (r: Vec<String>)
    ensures
        crate::tasks::texts(r@) == saved_image_name_texts(stem@, format),
{
    let mut r: Vec<String> = Vec::new();
    if let Some(e) = format.extension() {
        r.push(image_file_name(stem, e));
        r.push(image_file_name(stem, "gif"));
        proof {
            reveal_strlit("gif");
            reveal_strlit(".gif");
            reveal_strlit(".");
        }
        assert((stem@ + "."@) + "gif"@ =~= stem@ + ".gif"@);
        assert(crate::tasks::texts(r@) =~= saved_image_name_texts(stem@, format));
    } else {
        assert(crate::tasks::texts(r@) =~= saved_image_name_texts(stem@, format));
    }
    r
}

/// A resumed download never fetches an image again that it saved before in
/// a chosen format: the file that `plan_image_save` names for it is one of
/// the files whose presence makes the download skip it.
pub proof fn law_saved_image_is_skipped(stem: Seq<char>, served: ImgFormat, format: DownloadFormat)
    requires
        format != DownloadFormat::Original,
        source_extension(served) is Some,
    ensures
        saved_image_name_texts(stem, format).contains(stem + "."@ + planned_extension(served, format)),
{
    reveal_strlit("gif");
    reveal_strlit(".gif");
    reveal_strlit(".");
    let names = saved_image_name_texts(stem, format);
    if served == ImgFormat::Gif {
        assert(stem + "."@ + "gif"@ =~= stem + ".gif"@);
        assert(names[1] == stem + "."@ + planned_extension(served, format));
    } else {
        assert(names[0] == stem + "."@ + planned_extension(served, format));
    }
}

/// Resuming a download in a chosen format keeps every image it saved
/// before: an image saved as planned, under a non-empty stem without dots,
/// is a file that `keep_file_on_resume` keeps.
pub proof fn law_saved_images_kept_on_resume(
    stem: Seq<char>,
    served: ImgFormat,
    format: DownloadFormat,
    extension: Seq<char>,
)
    requires
        stem.len() > 0,
        forall|i: int| 0 <= i < stem.len() ==> #[trigger] stem[i] != '.',
        format != DownloadFormat::Original,
        source_extension(served) is Some,
        extension == if served == ImgFormat::Gif {
            "gif"@
        } else {
            format_extension(format).unwrap()
        },
    ensures
        keeps_file(stem + "."@ + extension, format),
{
    reveal_strlit(".");
    reveal_strlit("..");
    reveal_strlit("gif");
    reveal_strlit("jpg");
    reveal_strlit("png");
    reveal_strlit("webp");
    let name = stem + "."@ + extension;
    let p = stem.len() as int;
    assert(name[p] == '.');
    assert forall|j: int| p < j < name.len() implies name[j] != '.' by {
        assert(name[j] == extension[j - p - 1]);
    }
    crate::text::lemma_rfind_char(name, '.');
    match rfind_char(name, '.') {
        Some(q) => {
            if q < p {
                assert(name[q] == stem[q]);
            }
        },
        None => {},
    }
    assert(name != ".."@) by {
        if name == ".."@ {
            assert(name[0] == stem[0]);
        }
    }
    assert(name.skip(p + 1) =~= extension);
}
/// A run of zeros is worth nothing.
proof fn lemma_zeros_value(k: nat)
    ensures
        crate::text::digits_value(Seq::new(k, |i: int| '0')) == 0,
    decreases k,
{
    if k > 0 {
        assert(Seq::new(k, |i: int| '0').drop_last() =~= Seq::new((k - 1) as nat, |i: int| '0'));
        lemma_zeros_value((k - 1) as nat);
    }
}

/// Leading zeros do not change the value of a run of digits.
proof fn lemma_leading_zeros_value(k: nat, d: Seq<char>)
    ensures
        crate::text::digits_value(Seq::new(k, |i: int| '0') + d) == crate::text::digits_value(d),
    decreases d.len(),
{
    let z = Seq::new(k, |i: int| '0');
    if d.len() == 0 {
        assert(z + d =~= z);
        lemma_zeros_value(k);
    } else {
        assert((z + d).drop_last() =~= z + d.drop_last());
        assert((z + d).last() == d.last());
        lemma_leading_zeros_value(k, d.drop_last());
    }
}

/// The decimal text of a positive number does not start with `0`.
proof fn lemma_nat_decimal_no_leading_zero(n: nat)
    requires
        n >= 1,
    ensures
        nat_decimal(n)[0] != '0',
    decreases n,
{
    crate::text::lemma_nat_decimal(n);
    if n >= 10 {
        lemma_nat_decimal_no_leading_zero(n / 10);
        crate::text::lemma_nat_decimal(n / 10);
        assert(nat_decimal(n)[0] == nat_decimal(n / 10)[0]);
    }
}

/// Without original file names, the image at `index` is saved under its
/// one-based number: the stem is all digits and reads back as `index + 1`;
/// it has at least four digits, exactly four below 10000, and leading zeros
/// only to make up four digits (`0001`, `0100`, `12345`).
pub proof fn law_image_number_stem(index: usize, url: Seq<char>)
    ensures
        crate::text::all_digits(image_stem(index, url, false)),
        crate::text::digits_value(image_stem(index, url, false)) == index + 1,
        image_stem(index, url, false).len() >= 4,
        index + 1 < 10000 ==> image_stem(index, url, false).len() == 4,
        image_stem(index, url, false).len() > 4 ==> image_stem(index, url, false)[0] != '0',
{
    let n = index as nat + 1;
    let d = nat_decimal(n);
    crate::text::lemma_nat_decimal(n);
    lemma_nat_decimal_no_leading_zero(n);
    let stem = image_stem(index, url, false);
    if d.len() < 4 {
        let z = Seq::new((4 - d.len()) as nat, |i: int| '0');
        assert(stem == z + d);
        lemma_leading_zeros_value((4 - d.len()) as nat, d);
        assert forall|j: int| 0 <= j < stem.len() implies crate::text::is_digit(#[trigger] stem[j]) by {
            if j >= z.len() {
                assert(stem[j] == d[j - z.len()]);
            }
        }
    } else {
        assert(stem == d);
        if n < 10000 {
            assert(crate::naming::pow10(4) == 10000) by {
                reveal_with_fuel(crate::naming::pow10, 5);
            }
            crate::naming::lemma_nat_decimal_len(n, 4);
        }
    }
}

/// The name of a file `stem.e` has the extension `e`, when neither the
/// stem, which is not empty, nor `e` holds a dot.
proof fn lemma_dotted_name_extension(stem: Seq<char>, e: Seq<char>)
    requires
        stem.len() > 0,
        forall|i: int| 0 <= i < stem.len() ==> #[trigger] stem[i] != '.',
        forall|i: int| 0 <= i < e.len() ==> #[trigger] e[i] != '.',
    ensures
        file_extension(stem + "."@ + e) == Some(e),
{
    reveal_strlit(".");
    reveal_strlit("..");
    let name = stem + "."@ + e;
    let p = stem.len() as int;
    assert(name[p] == '.');
    assert forall|j: int| p < j < name.len() implies name[j] != '.' by {
        assert(name[j] == e[j - p - 1]);
    }
    crate::text::lemma_rfind_char(name, '.');
    match rfind_char(name, '.') {
        Some(q) => {
            if q < p {
                assert(name[q] == stem[q]);
            }
        },
        None => {},
    }
    assert(name != ".."@) by {
        if name == ".."@ {
            assert(name[0] == stem[0]);
        }
    }
    assert(name.skip(p + 1) =~= e);
}

/// Resuming a download in `format` keeps, of the files `stem.e` of its
/// temporary folder other than the metadata file, exactly the GIFs and the
/// files of the chosen format's extension: a file left from an attempt in
/// another format (`0001.jpg` when resuming in PNG) is deleted.
pub proof fn law_resume_keeps_gifs_and_chosen_format(stem: Seq<char>, e: Seq<char>, format: DownloadFormat)
    requires
        stem.len() > 0,
        forall|i: int| 0 <= i < stem.len() ==> #[trigger] stem[i] != '.',
        forall|i: int| 0 <= i < e.len() ==> #[trigger] e[i] != '.',
        stem + "."@ + e != metadata_file_name(),
    ensures
        keeps_file(stem + "."@ + e, format) <==> (e == "gif"@ || Some(e) == format_extension(format)),
{
    lemma_dotted_name_extension(stem, e);
}

} // verus!
