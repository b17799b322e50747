//! Decoded images, the supported file types and the choice of decoder.
use vstd::prelude::*;

use crate::paths::{extension_of_path, opt_text, path_extension, plain_dotted_name};
use crate::sorting::{sorted_unique, strictly_sorted, texts_of};
use crate::text::{ascii_lower, to_ascii_lowercase};

verus! {

/// Pixels in RGBA order, row by row.
#[derive(Debug, Clone)]
pub struct DecodedImage {
    pub rgba: Vec<u8>,
    pub width: u32,
    pub height: u32,
}

impl DecodedImage {
    /// The pixel buffer holds exactly four bytes per pixel.
    pub open spec fn well_sized(&self) -> bool {
        self.rgba@.len() == (self.width as int) * (self.height as int) * 4
    }
}

/// One frame of an animation and how long it is shown, in nanoseconds.
#[derive(Debug, Clone)]
pub struct Frame {
    pub image: DecodedImage,
    pub delay_nanos: u64,
}

/// A still image or the frames of an animation.
#[derive(Debug, Clone)]
pub enum Decoded {
    Still(DecodedImage),
    Animation(Vec<Frame>),
}

/// The EXIF orientation of an image: how its pixels must be turned to show it upright.
#[derive(Debug, Clone, Copy, PartialEq, Eq, Structural)]
pub enum Orientation {
    Normal,
    FlipH,
    Rotate180,
    FlipV,
    Transpose,
    Rotate90,
    Transverse,
    Rotate270,
}

/// What a decoder is asked to decode.
#[derive(Debug, Clone)]
pub struct DecodeRequest<'a> {
    pub path: &'a str,
    pub bytes: &'a [u8],
    pub target_width: u32,
    pub target_height: u32,
}

/// A decoded file.
#[derive(Debug, Clone)]
pub struct DecodeOutput {
    pub decoded: Decoded,
    pub orientation: Orientation,
}

/// Why a file could not be decoded.
#[derive(Debug, Clone, PartialEq, Eq)]
pub enum DecodeError {
    UnsupportedFormat,
    NoDecoder,
    Decode(String),
    Io(String),
}

pub open spec fn decode_error_text(e: DecodeError) -> Seq<char> {
    match e {
        DecodeError::UnsupportedFormat => "unsupported image format"@,
        DecodeError::NoDecoder => "no decoder matched this file"@,
        DecodeError::Decode(m) => m@,
        DecodeError::Io(m) => m@,
    }
}

impl DecodeError {
    /// The text shown for the error.
    pub fn message(&self) -> (r: String)
        ensures
            r@ == decode_error_text(*self),
    {
        match self {
            DecodeError::UnsupportedFormat => String::from_str("unsupported image format"),
            DecodeError::NoDecoder => String::from_str("no decoder matched this file"),
            DecodeError::Decode(m) => m.clone(),
            DecodeError::Io(m) => m.clone(),
        }
    }
}

/// The decoders, in the order in which they are asked whether they take a file.
#[derive(Debug, Clone, Copy, PartialEq, Eq, Structural)]
pub enum DecoderKind {
    Svg,
    Jxl,
    Raster,
}

pub const RASTER_EXTENSIONS: [&'static str; 19] = [
    "png",
    "jpg",
    "jpeg",
    "gif",
    "webp",
    "bmp",
    "ico",
    "tif",
    "tiff",
    "tga",
    "ff",
    "qoi",
    "pnm",
    "pbm",
    "pgm",
    "ppm",
    "pam",
    "exr",
    "hdr",
];

pub const SVG_EXTENSIONS: [&'static str; 2] = ["svg", "svgz"];

pub const JXL_EXTENSIONS: [&'static str; 1] = ["jxl"];

pub const AVIF_EXTENSIONS: [&'static str; 2] = ["avif", "avifs"];

pub const RAW_EXTENSIONS: [&'static str; 22] = [
    "cr2",
    "cr3",
    "crw",
    "nef",
    "nrw",
    "arw",
    "srf",
    "sr2",
    "orf",
    "rw2",
    "raf",
    "dng",
    "pef",
    "erf",
    "kdc",
    "dcr",
    "mrw",
    "3fr",
    "iiq",
    "mos",
    "srw",
    "x3f",
];

/// The lower-cased extension of a path's file name.
pub open spec fn lower_extension(path: Seq<char>) -> Option<Seq<char>> {
    match path_extension(path) {
        Some(e) => Some(ascii_lower(e)),
        None => None,
    }
}

/// The extension of a path's file name, lower-cased.
pub fn extension_of(path: &str) -> (r: Option<String>)
    ensures
        opt_text(r) == lower_extension(path@),
        forall|i: int|
            plain_dotted_name(path@, i) ==> opt_text(r) == Some(
                ascii_lower(path@.subrange(i + 1, path@.len() as int)),
            ),
{
    match extension_of_path(path) {
        Some(e) => Some(to_ascii_lowercase(e.as_str())),
        None => None,
    }
}

pub open spec fn is_svg_ext(e: Seq<char>) -> bool {
    e == "svg"@ || e == "svgz"@
}

pub fn is_svg_extension(ext: &str) -> (r: bool)
    ensures
        r == is_svg_ext(ext@),
{
    crate::text::same_text(ext, "svg") || crate::text::same_text(ext, "svgz")
}

pub open spec fn is_jxl_ext(e: Seq<char>) -> bool {
    e == "jxl"@
}

pub fn is_jxl_extension(ext: &str) -> (r: bool)
    ensures
        r == is_jxl_ext(ext@),
{
    crate::text::same_text(ext, "jxl")
}

pub open spec fn is_avif_ext(e: Seq<char>) -> bool {
    e == "avif"@ || e == "avifs"@
}

pub fn is_avif_extension(ext: &str) -> (r: bool)
    ensures
        r == is_avif_ext(ext@),
{
    crate::text::same_text(ext, "avif") || crate::text::same_text(ext, "avifs")
}

pub open spec fn raw_list() -> Seq<Seq<char>> {
    seq![
        "cr2"@, "cr3"@, "crw"@, "nef"@, "nrw"@, "arw"@, "srf"@, "sr2"@, "orf"@, "rw2"@, "raf"@,
        "dng"@, "pef"@, "erf"@, "kdc"@, "dcr"@, "mrw"@, "3fr"@, "iiq"@, "mos"@, "srw"@, "x3f"@,
    ]
}

/// Whether an extension is one of the camera raw formats.
pub fn is_raw_extension(ext: &str) -> (r: bool)
    ensures
        r == raw_list().contains(ext@),
{
    let list = RAW_EXTENSIONS;
    let mut i: usize = 0;
    assert(texts_of(list@) =~= raw_list());
    while i < 22
        invariant
            list@ == RAW_EXTENSIONS@,
            texts_of(list@) == raw_list(),
            i <= 22,
            forall|j: int| 0 <= j < i ==> raw_list()[j] != ext@,
        decreases 22 - i,
    {
        if crate::text::same_text(list[i], ext) {
            assert(raw_list()[i as int] == ext@);
            return true;
        }
        i = i + 1;
    }
    false
}

#[verifier::external_type_specification]
#[verifier::external_body]
pub struct ExImageFormat(image::ImageFormat);

/// The format that the `image` crate assigns to an extension.
pub uninterp spec fn image_format_of_extension(ext: Seq<char>) -> Option<image::ImageFormat>;

/// Whether this build of the `image` crate decodes a format.
pub uninterp spec fn image_format_readable(f: image::ImageFormat) -> bool;

/// The format that the `image` crate recognises from a file's first bytes.
pub uninterp spec fn image_format_of_bytes(bytes: Seq<u8>) -> Option<image::ImageFormat>;

/// The extensions that `ImageFormat::from_extension` knows, lower-cased.
pub open spec fn image_extension_list() -> Seq<Seq<char>> {
    seq![
        "avif"@, "jpg"@, "jpeg"@, "jfif"@, "png"@, "apng"@, "gif"@, "webp"@, "tif"@, "tiff"@,
        "tga"@, "dds"@, "bmp"@, "ico"@, "hdr"@, "exr"@, "pbm"@, "pam"@, "ppm"@, "pgm"@, "pnm"@,
        "ff"@, "qoi"@,
    ]
}

/// `ImageFormat::from_extension`: the extension is ASCII lower-cased and
/// looked up in a fixed table; the result is some format exactly for the
/// extensions of that table. Which format each one gives is named, not stated.
#[verifier::external_body]
fn format_from_extension(ext: &str) -> (r: Option<image::ImageFormat>)
    ensures
        r == image_format_of_extension(ext@),
        r == image_format_of_extension(ascii_lower(ext@)),
        r is Some <==> image_extension_list().contains(ascii_lower(ext@)),
{
    image::ImageFormat::from_extension(ext)
}

/// `ImageFormat::reading_enabled`: whether the format's decoder was built in.
/// With the crate's default formats that holds of every format that
/// `from_extension` gives but the one of "dds", whose decoder the crate lacks.
#[verifier::external_body]
fn format_reading_enabled(f: image::ImageFormat) -> (r: bool)
    ensures
        r == image_format_readable(f),
        forall|e: Seq<char>|
            #![trigger image_format_of_extension(e)]
            image_extension_list().contains(e) && image_format_of_extension(e) == Some(f) ==> (r
                <==> e != "dds"@),
{
    f.reading_enabled()
}

/// `image::guess_format`: the format recognised from the magic bytes, if any.
#[verifier::external_body]
fn format_from_bytes(bytes: &[u8]) -> (r: Option<image::ImageFormat>)
    ensures
        r == image_format_of_bytes(bytes@),
{
    image::guess_format(bytes).ok()
}

/// Whether the `image` crate decodes files with this extension.
pub open spec fn raster_ext(e: Seq<char>) -> bool {
    match image_format_of_extension(e) {
        Some(f) => image_format_readable(f),
        None => false,
    }
}

/// Whether the raster decoder reads a lower-cased extension: one of the
/// table of the `image` crate, but for "dds".
pub open spec fn readable_raster_ext(e: Seq<char>) -> bool {
    image_extension_list().contains(e) && e != "dds"@
}

pub fn is_raster_extension(ext: &str) -> (r: bool)
    ensures
        r == raster_ext(ext@),
        r == readable_raster_ext(ascii_lower(ext@)),
{
    match format_from_extension(ext) {
        Some(f) => {
            let b = format_reading_enabled(f);
            proof {
                let l = ascii_lower(ext@);
                assert(image_format_of_extension(l) == Some(f));
            }
            b
        },
        None => false,
    }
}

/// Whether a file can be opened, judged by its extension.
pub open spec fn supported_path(path: Seq<char>) -> bool {
    match lower_extension(path) {
        Some(e) => raster_ext(e) || is_svg_ext(e) || is_jxl_ext(e),
        None => false,
    }
}

/// Whether a file with this lower-cased extension can be opened.
pub open spec fn openable_ext(e: Seq<char>) -> bool {
    readable_raster_ext(e) || is_svg_ext(e) || is_jxl_ext(e)
}

pub fn is_supported(path: &str) -> (r: bool)
    ensures
        r == supported_path(path@),
        r == (lower_extension(path@) matches Some(e) && openable_ext(e)),
        forall|i: int|
            plain_dotted_name(path@, i) ==> (r <==> openable_ext(
                ascii_lower(path@.subrange(i + 1, path@.len() as int)),
            )),
{
    proof {
        match path_extension(path@) {
            Some(e) => crate::text::lemma_ascii_lower_twice(e),
            None => {},
        }
    }
    match extension_of(path) {
        Some(ext) => is_raster_extension(ext.as_str()) || is_svg_extension(ext.as_str())
            || is_jxl_extension(ext.as_str()),
        None => false,
    }
}

pub open spec fn decodable_list() -> Seq<Seq<char>> {
    seq![
        "png"@, "jpg"@, "jpeg"@, "gif"@, "webp"@, "bmp"@, "ico"@, "tif"@, "tiff"@, "tga"@, "ff"@,
        "qoi"@, "pnm"@, "pbm"@, "pgm"@, "ppm"@, "pam"@, "exr"@, "hdr"@, "svg"@, "svgz"@, "jxl"@,
    ]
}

/// Every extension the open dialog lists can be opened: it is a plain,
/// lower-cased extension of a format that a decoder reads, so a file
/// named "a." followed by it is supported.
pub proof fn law_listed_extensions_open(e: Seq<char>)
    requires
        decodable_list().contains(e),
    ensures
        openable_ext(e),
        ascii_lower(e) == e,
        plain_dotted_name(seq!['a', '.'] + e, 1),
        (seq!['a', '.'] + e).subrange(2, (seq!['a', '.'] + e).len() as int) == e,
{
    let k = choose|k: int| 0 <= k < decodable_list().len() && decodable_list()[k] == e;
    lemma_listed_extension_plain(k);
    let p = seq!['a', '.'] + e;
    assert(p.subrange(2, p.len() as int) =~= e);
    assert(ascii_lower(e) =~= e);
}

/// A path whose extension, lower-cased, is one that the open dialog lists
/// is accepted by `is_supported`.
pub proof fn law_listed_extension_supported(p: Seq<char>)
    requires
        path_extension(p) is Some,
        decodable_list().contains(ascii_lower(path_extension(p)->0)),
    ensures
        lower_extension(p) matches Some(x) && openable_ext(x),
{
    law_listed_extensions_open(ascii_lower(path_extension(p)->0));
}

/// The listed extensions are short texts of lower-case letters and digits,
/// each an extension that a decoder reads.
proof fn lemma_listed_extension_plain(k: int)
    requires
        0 <= k < decodable_list().len(),
    ensures
        ({
            let e = decodable_list()[k];
            &&& e.len() > 0
            &&& forall|j: int| 0 <= j < e.len() ==> ('a' <= #[trigger] e[j] <= 'z') || ('0' <= e[j] <= '9')
            &&& openable_ext(e)
        }),
{
    reveal_strlit("apng");
    reveal_strlit("avif");
    reveal_strlit("bmp");
    reveal_strlit("dds");
    reveal_strlit("exr");
    reveal_strlit("ff");
    reveal_strlit("gif");
    reveal_strlit("hdr");
    reveal_strlit("ico");
    reveal_strlit("jfif");
    reveal_strlit("jpeg");
    reveal_strlit("jpg");
    reveal_strlit("jxl");
    reveal_strlit("pam");
    reveal_strlit("pbm");
    reveal_strlit("pgm");
    reveal_strlit("png");
    reveal_strlit("pnm");
    reveal_strlit("ppm");
    reveal_strlit("qoi");
    reveal_strlit("svg");
    reveal_strlit("svgz");
    reveal_strlit("tga");
    reveal_strlit("tif");
    reveal_strlit("tiff");
    reveal_strlit("webp");
    if k == 0 {
        assert(decodable_list()[k] == "png"@);
        assert(image_extension_list()[4] == "png"@);
        assert("png"@[0] != "dds"@[0]);
        assert(forall|j: int| 0 <= j < "png"@.len() ==> ('a' <= #[trigger] "png"@[j] <= 'z') || ('0' <= "png"@[j] <= '9'));
    } else if k == 1 {
        assert(decodable_list()[k] == "jpg"@);
        assert(image_extension_list()[1] == "jpg"@);
        assert("jpg"@[0] != "dds"@[0]);
        assert(forall|j: int| 0 <= j < "jpg"@.len() ==> ('a' <= #[trigger] "jpg"@[j] <= 'z') || ('0' <= "jpg"@[j] <= '9'));
    } else if k == 2 {
        assert(decodable_list()[k] == "jpeg"@);
        assert(image_extension_list()[2] == "jpeg"@);
        assert("jpeg"@[0] != "dds"@[0]);
        assert(forall|j: int| 0 <= j < "jpeg"@.len() ==> ('a' <= #[trigger] "jpeg"@[j] <= 'z') || ('0' <= "jpeg"@[j] <= '9'));
    } else if k == 3 {
        assert(decodable_list()[k] == "gif"@);
        assert(image_extension_list()[6] == "gif"@);
        assert("gif"@[0] != "dds"@[0]);
        assert(forall|j: int| 0 <= j < "gif"@.len() ==> ('a' <= #[trigger] "gif"@[j] <= 'z') || ('0' <= "gif"@[j] <= '9'));
    } else if k == 4 {
        assert(decodable_list()[k] == "webp"@);
        assert(image_extension_list()[7] == "webp"@);
        assert("webp"@[0] != "dds"@[0]);
        assert(forall|j: int| 0 <= j < "webp"@.len() ==> ('a' <= #[trigger] "webp"@[j] <= 'z') || ('0' <= "webp"@[j] <= '9'));
    } else if k == 5 {
        assert(decodable_list()[k] == "bmp"@);
        assert(image_extension_list()[12] == "bmp"@);
        assert("bmp"@[0] != "dds"@[0]);
        assert(forall|j: int| 0 <= j < "bmp"@.len() ==> ('a' <= #[trigger] "bmp"@[j] <= 'z') || ('0' <= "bmp"@[j] <= '9'));
    } else if k == 6 {
        assert(decodable_list()[k] == "ico"@);
        assert(image_extension_list()[13] == "ico"@);
        assert("ico"@[0] != "dds"@[0]);
        assert(forall|j: int| 0 <= j < "ico"@.len() ==> ('a' <= #[trigger] "ico"@[j] <= 'z') || ('0' <= "ico"@[j] <= '9'));
    } else if k == 7 {
        assert(decodable_list()[k] == "tif"@);
        assert(image_extension_list()[8] == "tif"@);
        assert("tif"@[0] != "dds"@[0]);
        assert(forall|j: int| 0 <= j < "tif"@.len() ==> ('a' <= #[trigger] "tif"@[j] <= 'z') || ('0' <= "tif"@[j] <= '9'));
    } else if k == 8 {
        assert(decodable_list()[k] == "tiff"@);
        assert(image_extension_list()[9] == "tiff"@);
        assert("tiff"@[0] != "dds"@[0]);
        assert(forall|j: int| 0 <= j < "tiff"@.len() ==> ('a' <= #[trigger] "tiff"@[j] <= 'z') || ('0' <= "tiff"@[j] <= '9'));
    } else if k == 9 {
        assert(decodable_list()[k] == "tga"@);
        assert(image_extension_list()[10] == "tga"@);
        assert("tga"@[0] != "dds"@[0]);
        assert(forall|j: int| 0 <= j < "tga"@.len() ==> ('a' <= #[trigger] "tga"@[j] <= 'z') || ('0' <= "tga"@[j] <= '9'));
    } else if k == 10 {
        assert(decodable_list()[k] == "ff"@);
        assert(image_extension_list()[21] == "ff"@);
        assert("ff"@[0] != "dds"@[0]);
        assert(forall|j: int| 0 <= j < "ff"@.len() ==> ('a' <= #[trigger] "ff"@[j] <= 'z') || ('0' <= "ff"@[j] <= '9'));
    } else if k == 11 {
        assert(decodable_list()[k] == "qoi"@);
        assert(image_extension_list()[22] == "qoi"@);
        assert("qoi"@[0] != "dds"@[0]);
        assert(forall|j: int| 0 <= j < "qoi"@.len() ==> ('a' <= #[trigger] "qoi"@[j] <= 'z') || ('0' <= "qoi"@[j] <= '9'));
    } else if k == 12 {
        assert(decodable_list()[k] == "pnm"@);
        assert(image_extension_list()[20] == "pnm"@);
        assert("pnm"@[0] != "dds"@[0]);
        assert(forall|j: int| 0 <= j < "pnm"@.len() ==> ('a' <= #[trigger] "pnm"@[j] <= 'z') || ('0' <= "pnm"@[j] <= '9'));
    } else if k == 13 {
        assert(decodable_list()[k] == "pbm"@);
        assert(image_extension_list()[16] == "pbm"@);
        assert("pbm"@[0] != "dds"@[0]);
        assert(forall|j: int| 0 <= j < "pbm"@.len() ==> ('a' <= #[trigger] "pbm"@[j] <= 'z') || ('0' <= "pbm"@[j] <= '9'));
    } else if k == 14 {
        assert(decodable_list()[k] == "pgm"@);
        assert(image_extension_list()[19] == "pgm"@);
        assert("pgm"@[0] != "dds"@[0]);
        assert(forall|j: int| 0 <= j < "pgm"@.len() ==> ('a' <= #[trigger] "pgm"@[j] <= 'z') || ('0' <= "pgm"@[j] <= '9'));
    } else if k == 15 {
        assert(decodable_list()[k] == "ppm"@);
        assert(image_extension_list()[18] == "ppm"@);
        assert("ppm"@[0] != "dds"@[0]);
        assert(forall|j: int| 0 <= j < "ppm"@.len() ==> ('a' <= #[trigger] "ppm"@[j] <= 'z') || ('0' <= "ppm"@[j] <= '9'));
    } else if k == 16 {
        assert(decodable_list()[k] == "pam"@);
        assert(image_extension_list()[17] == "pam"@);
        assert("pam"@[0] != "dds"@[0]);
        assert(forall|j: int| 0 <= j < "pam"@.len() ==> ('a' <= #[trigger] "pam"@[j] <= 'z') || ('0' <= "pam"@[j] <= '9'));
    } else if k == 17 {
        assert(decodable_list()[k] == "exr"@);
        assert(image_extension_list()[15] == "exr"@);
        assert("exr"@[0] != "dds"@[0]);
        assert(forall|j: int| 0 <= j < "exr"@.len() ==> ('a' <= #[trigger] "exr"@[j] <= 'z') || ('0' <= "exr"@[j] <= '9'));
    } else if k == 18 {
        assert(decodable_list()[k] == "hdr"@);
        assert(image_extension_list()[14] == "hdr"@);
        assert("hdr"@[0] != "dds"@[0]);
        assert(forall|j: int| 0 <= j < "hdr"@.len() ==> ('a' <= #[trigger] "hdr"@[j] <= 'z') || ('0' <= "hdr"@[j] <= '9'));
    } else if k == 19 {
        assert(decodable_list()[k] == "svg"@);
        assert(forall|j: int| 0 <= j < "svg"@.len() ==> ('a' <= #[trigger] "svg"@[j] <= 'z') || ('0' <= "svg"@[j] <= '9'));
    } else if k == 20 {
        assert(decodable_list()[k] == "svgz"@);
        assert(forall|j: int| 0 <= j < "svgz"@.len() ==> ('a' <= #[trigger] "svgz"@[j] <= 'z') || ('0' <= "svgz"@[j] <= '9'));
    } else if k == 21 {
        assert(decodable_list()[k] == "jxl"@);
        assert(forall|j: int| 0 <= j < "jxl"@.len() ==> ('a' <= #[trigger] "jxl"@[j] <= 'z') || ('0' <= "jxl"@[j] <= '9'));
    }
}

/// The extensions the decoders take, sorted, each once.
pub fn supported_extensions() -> (r: Vec<&'static str>)
    ensures
        strictly_sorted(texts_of(r@)),
        forall|x: Seq<char>| texts_of(r@).contains(x) <==> decodable_list().contains(x),
{
    let list: Vec<&'static str> = vec![
        "png",
        "jpg",
        "jpeg",
        "gif",
        "webp",
        "bmp",
        "ico",
        "tif",
        "tiff",
        "tga",
        "ff",
        "qoi",
        "pnm",
        "pbm",
        "pgm",
        "ppm",
        "pam",
        "exr",
        "hdr",
        "svg",
        "svgz",
        "jxl",
    ];
    assert(texts_of(list@) =~= decodable_list());
    sorted_unique(&list)
}

/// The bytes `b` start with `prefix`.
pub open spec fn starts_with(b: Seq<u8>, prefix: Seq<u8>) -> bool {
    prefix.len() <= b.len() && b.take(prefix.len() as int) == prefix
}

pub fn bytes_start_with(b: &[u8], prefix: &[u8]) -> (r: bool)
    ensures
        r == starts_with(b@, prefix@),
{
    if prefix.len() > b.len() {
        return false;
    }
    let mut i: usize = 0;
    while i < prefix.len()
        invariant
            prefix@.len() <= b@.len(),
            i <= prefix@.len(),
            forall|k: int| 0 <= k < i ==> b@[k] == prefix@[k],
        decreases prefix@.len() - i,
    {
        if b[i] != prefix[i] {
            assert(b@.take(prefix@.len() as int)[i as int] != prefix@[i as int]);
            return false;
        }
        i = i + 1;
    }
    assert(b@.take(prefix@.len() as int) =~= prefix@);
    true
}

pub open spec fn jxl_codestream_signature() -> Seq<u8> {
    seq![0xffu8, 0x0au8]
}

pub open spec fn jxl_container_signature() -> Seq<u8> {
    seq![0x00u8, 0x00, 0x00, 0x0c, 0x4a, 0x58, 0x4c, 0x20, 0x0d, 0x0a, 0x87, 0x0a]
}

/// A JPEG XL codestream or container starts the file.
pub open spec fn jxl_signature(b: Seq<u8>) -> bool {
    starts_with(b, jxl_codestream_signature()) || starts_with(b, jxl_container_signature())
}

pub fn looks_like_jxl(bytes: &[u8]) -> (r: bool)
    ensures
        r == jxl_signature(bytes@),
{
    let a: [u8; 2] = [0xff, 0x0a];
    let b: [u8; 12] = [0x00, 0x00, 0x00, 0x0c, 0x4a, 0x58, 0x4c, 0x20, 0x0d, 0x0a, 0x87, 0x0a];
    assert(a@ =~= jxl_codestream_signature());
    assert(b@ =~= jxl_container_signature());
    bytes_start_with(bytes, a.as_slice()) || bytes_start_with(bytes, b.as_slice())
}

/// An ISO media file whose brand is `avif` or `avis`.
pub open spec fn avif_signature(b: Seq<u8>) -> bool {
    b.len() >= 12 && b.subrange(4, 8) == seq![0x66u8, 0x74, 0x79, 0x70] && (b.subrange(8, 12)
        == seq![0x61u8, 0x76, 0x69, 0x66] || b.subrange(8, 12) == seq![0x61u8, 0x76, 0x69, 0x73])
}

pub fn looks_like_avif(bytes: &[u8]) -> (r: bool)
    ensures
        r == avif_signature(bytes@),
{
    if bytes.len() < 12 {
        return false;
    }
    let ftyp = bytes[4] == 0x66 && bytes[5] == 0x74 && bytes[6] == 0x79 && bytes[7] == 0x70;
    let avif = bytes[8] == 0x61 && bytes[9] == 0x76 && bytes[10] == 0x69 && bytes[11] == 0x66;
    let avis = bytes[8] == 0x61 && bytes[9] == 0x76 && bytes[10] == 0x69 && bytes[11] == 0x73;
    proof {
        assert(ftyp == (bytes@.subrange(4, 8) == seq![0x66u8, 0x74, 0x79, 0x70])) by {
            if ftyp {
                assert(bytes@.subrange(4, 8) =~= seq![0x66u8, 0x74, 0x79, 0x70]);
            }
        }
        assert(avif == (bytes@.subrange(8, 12) == seq![0x61u8, 0x76, 0x69, 0x66])) by {
            if avif {
                assert(bytes@.subrange(8, 12) =~= seq![0x61u8, 0x76, 0x69, 0x66]);
            }
        }
        assert(avis == (bytes@.subrange(8, 12) == seq![0x61u8, 0x76, 0x69, 0x73])) by {
            if avis {
                assert(bytes@.subrange(8, 12) =~= seq![0x61u8, 0x76, 0x69, 0x73]);
            }
        }
    }
    ftyp && (avif || avis)
}

/// A gzip stream starts the file.
pub open spec fn gzip_signature(b: Seq<u8>) -> bool {
    b.len() >= 2 && b[0] == 0x1fu8 && b[1] == 0x8bu8
}

pub fn is_gzip(bytes: &[u8]) -> (r: bool)
    ensures
        r == gzip_signature(bytes@),
{
    bytes.len() >= 2 && bytes[0] == 0x1f && bytes[1] == 0x8b
}

/// The bytes of `<svg` occur within the first 1024 bytes. (An ASCII text
/// occurs in the lossy UTF-8 reading of some bytes exactly when its bytes do.)
pub open spec fn svg_signature(b: Seq<u8>) -> bool {
    has_svg_tag(svg_head(b))
}

/// The part of a file that is searched for an SVG tag: its first 1024 bytes.
pub open spec fn svg_head(b: Seq<u8>) -> Seq<u8> {
    b.take(if b.len() < 1024 {
        b.len() as int
    } else {
        1024
    })
}

/// The bytes of `<svg` occur somewhere in `h`.
pub open spec fn has_svg_tag(h: Seq<u8>) -> bool {
    exists|i: int| 0 <= i && i + 4 <= h.len() && #[trigger] h.subrange(i, i + 4) == seq![0x3cu8, 0x73, 0x76, 0x67]
}

pub fn looks_like_svg(bytes: &[u8]) -> (r: bool)
    ensures
        r == svg_signature(bytes@),
{
    let n: usize = if bytes.len() < 1024 {
        bytes.len()
    } else {
        1024
    };
    let ghost head = bytes@.take(n as int);
    let ghost pat = seq![0x3cu8, 0x73, 0x76, 0x67];
    let mut i: usize = 0;
    while n >= 4 && i <= n - 4
        invariant
            n <= bytes@.len(),
            n == (if bytes@.len() < 1024 { bytes@.len() as int } else { 1024 }),
            n == head.len(),
            head == bytes@.take(n as int),
            pat == seq![0x3cu8, 0x73, 0x76, 0x67],
            i <= n,
            forall|k: int| 0 <= k < i && k + 4 <= n ==> #[trigger] head.subrange(k, k + 4) != pat,
        decreases n - i,
    {
        assert(head.subrange(i as int, i + 4)[0] == bytes@[i as int]);
        assert(head.subrange(i as int, i + 4)[1] == bytes@[i + 1]);
        assert(head.subrange(i as int, i + 4)[2] == bytes@[i + 2]);
        assert(head.subrange(i as int, i + 4)[3] == bytes@[i + 3]);
        if bytes[i] == 0x3c && bytes[i + 1] == 0x73 && bytes[i + 2] == 0x76 && bytes[i + 3] == 0x67 {
            assert(head.subrange(i as int, i + 4) =~= pat);
            assert(head == svg_head(bytes@));
            assert(has_svg_tag(head));
            return true;
        }
        i = i + 1;
    }
    assert(head.len() == (if bytes@.len() < 1024 { bytes@.len() as int } else { 1024 }));
    false
}

/// Whether the SVG decoder takes a request: SVG or gzip content, or an SVG extension.
pub open spec fn svg_probe(path: Seq<char>, bytes: Seq<u8>) -> bool {
    svg_signature(bytes) || gzip_signature(bytes) || (lower_extension(path) matches Some(e)
        && is_svg_ext(e))
}

/// Whether the JPEG XL decoder takes a request.
pub open spec fn jxl_probe(path: Seq<char>, bytes: Seq<u8>) -> bool {
    jxl_signature(bytes) || (lower_extension(path) matches Some(e) && is_jxl_ext(e))
}

/// The format the raster decoder reads a request as: from the bytes, else
/// from the extension.
pub open spec fn raster_format(path: Seq<char>, bytes: Seq<u8>) -> Option<image::ImageFormat> {
    match image_format_of_bytes(bytes) {
        Some(f) => Some(f),
        None => match lower_extension(path) {
            Some(e) => image_format_of_extension(e),
            None => None,
        },
    }
}

/// The first decoder that takes a request, asked in order SVG, JPEG XL, raster.
pub open spec fn chosen_decoder(path: Seq<char>, bytes: Seq<u8>) -> Option<DecoderKind> {
    if svg_probe(path, bytes) {
        Some(DecoderKind::Svg)
    } else if jxl_probe(path, bytes) {
        Some(DecoderKind::Jxl)
    } else if raster_format(path, bytes) is Some {
        Some(DecoderKind::Raster)
    } else {
        None
    }
}

/// The format the raster decoder reads a request as.
pub fn format_for(req: &DecodeRequest<'_>) -> (r: Option<image::ImageFormat>)
    ensures
        r == raster_format(req.path@, req.bytes@),
{
    match format_from_bytes(req.bytes) {
        Some(f) => Some(f),
        None => match extension_of(req.path) {
            Some(e) => format_from_extension(e.as_str()),
            None => None,
        },
    }
}

/// A decoder: its name, and whether it takes a request.
pub trait Decoder {
    fn name(&self) -> &'static str;

    fn probe(&self, req: &DecodeRequest<'_>) -> bool;
}

/// The SVG decoder (`resvg`).
pub struct SvgDecoder;

/// The JPEG XL decoder (`jxl-oxide`).
pub struct JxlDecoder;

/// The AVIF decoder.
pub struct AvifDecoder;

/// Whether the AVIF decoder takes a request: AVIF content or an AVIF extension.
pub open spec fn avif_probe(path: Seq<char>, bytes: Seq<u8>) -> bool {
    avif_signature(bytes) || (lower_extension(path) matches Some(e) && is_avif_ext(e))
}

impl Decoder for SvgDecoder {
    fn name(&self) -> (r: &'static str)
        ensures
            r@ == "svg"@,
    {
        "svg"
    }

    fn probe(&self, req: &DecodeRequest<'_>) -> (r: bool)
        ensures
            r == svg_probe(req.path@, req.bytes@),
    {
        if looks_like_svg(req.bytes) || is_gzip(req.bytes) {
            return true;
        }
        match extension_of(req.path) {
            Some(e) => is_svg_extension(e.as_str()),
            None => false,
        }
    }
}

impl Decoder for JxlDecoder {
    fn name(&self) -> (r: &'static str)
        ensures
            r@ == "jxl"@,
    {
        "jxl"
    }

    fn probe(&self, req: &DecodeRequest<'_>) -> (r: bool)
        ensures
            r == jxl_probe(req.path@, req.bytes@),
    {
        if looks_like_jxl(req.bytes) {
            return true;
        }
        match extension_of(req.path) {
            Some(e) => is_jxl_extension(e.as_str()),
            None => false,
        }
    }
}

impl Decoder for AvifDecoder {
    fn name(&self) -> (r: &'static str)
        ensures
            r@ == "avif"@,
    {
        "avif"
    }

    fn probe(&self, req: &DecodeRequest<'_>) -> (r: bool)
        ensures
            r == avif_probe(req.path@, req.bytes@),
    {
        if looks_like_avif(req.bytes) {
            return true;
        }
        match extension_of(req.path) {
            Some(e) => is_avif_extension(e.as_str()),
            None => false,
        }
    }
}

impl Decoder for crate::raster::RasterDecoder {
    fn name(&self) -> (r: &'static str)
        ensures
            r@ == "raster"@,
    {
        "raster"
    }

    fn probe(&self, req: &DecodeRequest<'_>) -> (r: bool)
        ensures
            r == (raster_format(req.path@, req.bytes@) is Some),
    {
        format_for(req).is_some()
    }
}

/// The decoder for a request, or `NoDecoder` when none takes it.
pub fn choose_decoder(req: &DecodeRequest<'_>) -> (r: Result<DecoderKind, DecodeError>)
    ensures
        match chosen_decoder(req.path@, req.bytes@) {
            Some(k) => r == Ok::<DecoderKind, DecodeError>(k),
            None => r == Err::<DecoderKind, DecodeError>(DecodeError::NoDecoder),
        },
{
    let ext = extension_of(req.path);
    let svg_ext = match &ext {
        Some(e) => is_svg_extension(e.as_str()),
        None => false,
    };
    if looks_like_svg(req.bytes) || is_gzip(req.bytes) || svg_ext {
        return Ok(DecoderKind::Svg);
    }
    let jxl_ext = match &ext {
        Some(e) => is_jxl_extension(e.as_str()),
        None => false,
    };
    if looks_like_jxl(req.bytes) || jxl_ext {
        return Ok(DecoderKind::Jxl);
    }
    match format_for(req) {
        Some(_) => Ok(DecoderKind::Raster),
        None => Err(DecodeError::NoDecoder),
    }
}

/// The EXIF orientation field of a file: the first value of the primary
/// image's orientation tag, read by `kamadak-exif`.
pub uninterp spec fn exif_orientation_field(bytes: Seq<u8>) -> Option<u32>;

/// Reads the orientation tag with `exif::Reader::read_from_container`,
/// `Exif::get_field` and `Value::get_uint`; the value is named, not stated.
#[verifier::external_body]
fn read_orientation_field(bytes: &[u8]) -> (r: Option<u32>)
    ensures
        r == exif_orientation_field(bytes@),
{
    let mut cursor = std::io::Cursor::new(bytes);
    let exif = exif::Reader::new().read_from_container(&mut cursor).ok()?;
    exif.get_field(exif::Tag::Orientation, exif::In::PRIMARY)?.value.get_uint(0)
}

/// The orientation an EXIF orientation value stands for; values other than
/// 2 to 8, and a missing value, mean the image is upright.
pub open spec fn orientation_of(v: Option<u32>) -> Orientation {
    match v {
        Some(2) => Orientation::FlipH,
        Some(3) => Orientation::Rotate180,
        Some(4) => Orientation::FlipV,
        Some(5) => Orientation::Transpose,
        Some(6) => Orientation::Rotate90,
        Some(7) => Orientation::Transverse,
        Some(8) => Orientation::Rotate270,
        _ => Orientation::Normal,
    }
}

pub fn orientation_from_tag(v: Option<u32>) -> (r: Orientation)
    ensures
        r == orientation_of(v),
{
    match v {
        Some(2) => Orientation::FlipH,
        Some(3) => Orientation::Rotate180,
        Some(4) => Orientation::FlipV,
        Some(5) => Orientation::Transpose,
        Some(6) => Orientation::Rotate90,
        Some(7) => Orientation::Transverse,
        Some(8) => Orientation::Rotate270,
        _ => Orientation::Normal,
    }
}

/// The orientation recorded in a file's EXIF data.
pub fn exif_orientation(bytes: &[u8]) -> (r: Orientation)
    ensures
        r == orientation_of(exif_orientation_field(bytes@)),
{
    orientation_from_tag(read_orientation_field(bytes))
}

} // verus!
