//! The raster decoder: the formats of the `image` crate, animated GIF, WebP
//! and PNG included. The `image` crate does the decoding; which of its
//! results becomes the decoded file is decided here.
use vstd::prelude::*;

use image::AnimationDecoder;

use crate::decode::{raster_format, DecodeError, DecodeRequest, Decoded, DecodedImage, Frame, format_for};

verus! {

/// The kinds of format that may hold an animation.
#[derive(Debug, Clone, Copy, PartialEq, Eq, Structural)]
pub enum AnimationKind {
    Gif,
    WebP,
    Png,
    Other,
}

/// Which animated format, if any, an `image::ImageFormat` is.
pub uninterp spec fn animation_kind_of(f: image::ImageFormat) -> AnimationKind;

/// Tells the `image::ImageFormat` variants that may be animated apart.
#[verifier::external_body]
fn animation_kind(f: image::ImageFormat) -> (r: AnimationKind)
    ensures
        r == animation_kind_of(f),
{
    match f {
        image::ImageFormat::Gif => AnimationKind::Gif,
        image::ImageFormat::WebP => AnimationKind::WebP,
        image::ImageFormat::Png => AnimationKind::Png,
        _ => AnimationKind::Other,
    }
}

/// A frame as plain values: width, height, pixels and delay in nanoseconds.
pub type FrameData = (u32, u32, Seq<u8>, u64);

pub open spec fn frame_data(f: Frame) -> FrameData {
    (f.image.width, f.image.height, f.image.rgba@, f.delay_nanos)
}

pub open spec fn frames_data(fs: Seq<Frame>) -> Seq<FrameData> {
    fs.map_values(|f: Frame| frame_data(f))
}

pub open spec fn frames_result(r: Result<Vec<Frame>, String>) -> Result<Seq<FrameData>, Seq<char>> {
    match r {
        Ok(v) => Ok(frames_data(v@)),
        Err(m) => Err(m@),
    }
}

/// The frames `image`'s GIF decoder reads from a file, or its error message.
pub uninterp spec fn gif_frames_of(bytes: Seq<u8>) -> Result<Seq<FrameData>, Seq<char>>;

/// Whether `image`'s WebP decoder finds an animation in a file, or its error.
pub uninterp spec fn webp_animated_of(bytes: Seq<u8>) -> Result<bool, Seq<char>>;

/// The frames `image`'s WebP decoder reads from a file, or its error message.
pub uninterp spec fn webp_frames_of(bytes: Seq<u8>) -> Result<Seq<FrameData>, Seq<char>>;

/// Whether `image`'s PNG decoder finds an animated PNG, or its error.
pub uninterp spec fn png_animated_of(bytes: Seq<u8>) -> Result<bool, Seq<char>>;

/// The frames `image`'s APNG decoder reads from a file, or its error message.
pub uninterp spec fn apng_frames_of(bytes: Seq<u8>) -> Result<Seq<FrameData>, Seq<char>>;

/// The still image `image` decodes from a file read as `format`, as RGBA,
/// or its error message.
pub uninterp spec fn still_image_of(format: image::ImageFormat, bytes: Seq<u8>) -> Result<(u32, u32, Seq<u8>), Seq<char>>;

/// `GifDecoder::new`, `into_frames` and `Frames::collect_frames`; each
/// frame's buffer and delay taken as they are.
#[verifier::external_body]
fn gif_frames(bytes: &[u8]) -> (r: Result<Vec<Frame>, String>)
    ensures
        frames_result(r) == gif_frames_of(bytes@),
{
    let frames = image::codecs::gif::GifDecoder::new(std::io::Cursor::new(bytes))
        .and_then(|d| d.into_frames().collect_frames())
        .map_err(|e| e.to_string())?;
    Ok(frames.into_iter().map(|f| {
        let delay_nanos = std::time::Duration::from(f.delay()).as_nanos() as u64;
        let b = f.into_buffer();
        Frame { image: DecodedImage { width: b.width(), height: b.height(), rgba: b.into_raw() }, delay_nanos }
    }).collect())
}

/// `WebPDecoder::new` and `has_animation`.
#[verifier::external_body]
fn webp_animated(bytes: &[u8]) -> (r: Result<bool, String>)
    ensures
        match r {
            Ok(b) => webp_animated_of(bytes@) == Ok::<bool, Seq<char>>(b),
            Err(m) => webp_animated_of(bytes@) == Err::<bool, Seq<char>>(m@),
        },
{
    image::codecs::webp::WebPDecoder::new(std::io::Cursor::new(bytes))
        .map(|d| d.has_animation())
        .map_err(|e| e.to_string())
}

/// `WebPDecoder::new`, `into_frames` and `Frames::collect_frames`.
#[verifier::external_body]
fn webp_frames(bytes: &[u8]) -> (r: Result<Vec<Frame>, String>)
    ensures
        frames_result(r) == webp_frames_of(bytes@),
{
    let frames = image::codecs::webp::WebPDecoder::new(std::io::Cursor::new(bytes))
        .and_then(|d| d.into_frames().collect_frames())
        .map_err(|e| e.to_string())?;
    Ok(frames.into_iter().map(|f| {
        let delay_nanos = std::time::Duration::from(f.delay()).as_nanos() as u64;
        let b = f.into_buffer();
        Frame { image: DecodedImage { width: b.width(), height: b.height(), rgba: b.into_raw() }, delay_nanos }
    }).collect())
}

/// `PngDecoder::new` and `is_apng`.
#[verifier::external_body]
fn png_animated(bytes: &[u8]) -> (r: Result<bool, String>)
    ensures
        match r {
            Ok(b) => png_animated_of(bytes@) == Ok::<bool, Seq<char>>(b),
            Err(m) => png_animated_of(bytes@) == Err::<bool, Seq<char>>(m@),
        },
{
    image::codecs::png::PngDecoder::new(std::io::Cursor::new(bytes))
        .and_then(|d| d.is_apng())
        .map_err(|e| e.to_string())
}

/// `PngDecoder::new`, `apng`, `into_frames` and `Frames::collect_frames`.
#[verifier::external_body]
fn apng_frames(bytes: &[u8]) -> (r: Result<Vec<Frame>, String>)
    ensures
        frames_result(r) == apng_frames_of(bytes@),
{
    let frames = image::codecs::png::PngDecoder::new(std::io::Cursor::new(bytes))
        .and_then(|d| d.apng())
        .and_then(|d| d.into_frames().collect_frames())
        .map_err(|e| e.to_string())?;
    Ok(frames.into_iter().map(|f| {
        let delay_nanos = std::time::Duration::from(f.delay()).as_nanos() as u64;
        let b = f.into_buffer();
        Frame { image: DecodedImage { width: b.width(), height: b.height(), rgba: b.into_raw() }, delay_nanos }
    }).collect())
}

/// `ImageReader::new`, `set_format`, `decode` and `to_rgba8`.
#[verifier::external_body]
fn still_image(format: image::ImageFormat, bytes: &[u8]) -> (r: Result<DecodedImage, String>)
    ensures
        match r {
            Ok(img) => still_image_of(format, bytes@) == Ok::<(u32, u32, Seq<u8>), Seq<char>>(
                (img.width, img.height, img.rgba@),
            ),
            Err(m) => still_image_of(format, bytes@) == Err::<(u32, u32, Seq<u8>), Seq<char>>(m@),
        },
{
    let mut reader = image::ImageReader::new(std::io::Cursor::new(bytes));
    reader.set_format(format);
    let rgba = reader.decode().map_err(|e| e.to_string())?.to_rgba8();
    Ok(DecodedImage { width: rgba.width(), height: rgba.height(), rgba: rgba.into_raw() })
}

/// The frames of a file in a format that may be animated: none for other
/// formats, no frames for a still WebP or PNG.
pub open spec fn animation_of(format: image::ImageFormat, bytes: Seq<u8>) -> Option<Result<Seq<FrameData>, Seq<char>>> {
    match animation_kind_of(format) {
        AnimationKind::Gif => Some(gif_frames_of(bytes)),
        AnimationKind::WebP => Some(
            match webp_animated_of(bytes) {
                Err(m) => Err(m),
                Ok(true) => webp_frames_of(bytes),
                Ok(false) => Ok(Seq::empty()),
            },
        ),
        AnimationKind::Png => Some(
            match png_animated_of(bytes) {
                Err(m) => Err(m),
                Ok(true) => apng_frames_of(bytes),
                Ok(false) => Ok(Seq::empty()),
            },
        ),
        AnimationKind::Other => None,
    }
}

pub open spec fn animation_result(r: Option<Result<Vec<Frame>, String>>) -> Option<Result<Seq<FrameData>, Seq<char>>> {
    match r {
        Some(x) => Some(frames_result(x)),
        None => None,
    }
}

/// Reads the frames of a file in a format that may be animated.
pub fn decode_animated(format: image::ImageFormat, bytes: &[u8]) -> (r: Option<Result<Vec<Frame>, String>>)
    ensures
        animation_result(r) == animation_of(format, bytes@),
{
    match animation_kind(format) {
        AnimationKind::Gif => Some(gif_frames(bytes)),
        AnimationKind::WebP => match webp_animated(bytes) {
            Err(m) => Some(Err(m)),
            Ok(true) => Some(webp_frames(bytes)),
            Ok(false) => {
                let v: Vec<Frame> = Vec::new();
                assert(frames_data(v@) =~= Seq::<FrameData>::empty());
                Some(Ok(v))
            },
        },
        AnimationKind::Png => match png_animated(bytes) {
            Err(m) => Some(Err(m)),
            Ok(true) => Some(apng_frames(bytes)),
            Ok(false) => {
                let v: Vec<Frame> = Vec::new();
                assert(frames_data(v@) =~= Seq::<FrameData>::empty());
                Some(Ok(v))
            },
        },
        AnimationKind::Other => None,
    }
}

/// What becomes of the frames read: an animation of two or more frames, a
/// still image of a single one; `None` when the file must be read as a still.
pub open spec fn settled(frames: Option<Result<Seq<FrameData>, Seq<char>>>) -> Option<Result<DecodedView, Seq<char>>> {
    match frames {
        Some(Err(m)) => Some(Err(m)),
        Some(Ok(fs)) => if fs.len() > 1 {
            Some(Ok(DecodedView::Animation(fs)))
        } else if fs.len() == 1 {
            Some(Ok(DecodedView::Still((fs[0].0, fs[0].1, fs[0].2))))
        } else {
            None
        },
        None => None,
    }
}

/// A decoded file as plain values.
pub enum DecodedView {
    Still((u32, u32, Seq<u8>)),
    Animation(Seq<FrameData>),
}

pub open spec fn decoded_view(d: Decoded) -> DecodedView {
    match d {
        Decoded::Still(img) => DecodedView::Still((img.width, img.height, img.rgba@)),
        Decoded::Animation(fs) => DecodedView::Animation(frames_data(fs@)),
    }
}

/// A decoding error as plain values.
pub enum ErrorView {
    UnsupportedFormat,
    NoDecoder,
    Decode(Seq<char>),
    Io(Seq<char>),
}

pub open spec fn error_view(e: DecodeError) -> ErrorView {
    match e {
        DecodeError::UnsupportedFormat => ErrorView::UnsupportedFormat,
        DecodeError::NoDecoder => ErrorView::NoDecoder,
        DecodeError::Decode(m) => ErrorView::Decode(m@),
        DecodeError::Io(m) => ErrorView::Io(m@),
    }
}

pub open spec fn decoded_result(r: Result<Decoded, DecodeError>) -> Result<DecodedView, ErrorView> {
    match r {
        Ok(d) => Ok(decoded_view(d)),
        Err(e) => Err(error_view(e)),
    }
}

/// Turns the frames read from an animated format into the decoded file;
/// `None` when there were no frames and the file must be read as a still.
pub fn settle_frames(frames: Option<Result<Vec<Frame>, String>>) -> (r: Option<Result<Decoded, DecodeError>>)
    ensures
        match settled(animation_result(frames)) {
            None => r is None,
            Some(Err(m)) => r matches Some(Err(DecodeError::Decode(s))) && s@ == m,
            Some(Ok(v)) => r matches Some(Ok(d)) && decoded_view(d) == v,
        },
{
    match frames {
        None => None,
        Some(Err(m)) => Some(Err(DecodeError::Decode(m))),
        Some(Ok(mut fs)) => {
            if fs.len() > 1 {
                Some(Ok(Decoded::Animation(fs)))
            } else if fs.len() == 1 {
                let f = fs.pop().unwrap();
                Some(Ok(Decoded::Still(f.image)))
            } else {
                None
            }
        },
    }
}

/// What the raster decoder makes of a file.
pub open spec fn raster_decoded(path: Seq<char>, bytes: Seq<u8>) -> Result<DecodedView, ErrorView> {
    match raster_format(path, bytes) {
        None => Err(ErrorView::UnsupportedFormat),
        Some(f) => match settled(animation_of(f, bytes)) {
            Some(Ok(v)) => Ok(v),
            Some(Err(m)) => Err(ErrorView::Decode(m)),
            None => match still_image_of(f, bytes) {
                Ok(img) => Ok(DecodedView::Still(img)),
                Err(m) => Err(ErrorView::Decode(m)),
            },
        },
    }
}

/// The decoder for the formats of the `image` crate.
pub struct RasterDecoder;

impl RasterDecoder {
    /// Decodes a file in a format of the `image` crate: the frames of an
    /// animated GIF, WebP or PNG when there are two or more, else the still image.
    pub fn decode(&self, req: &DecodeRequest<'_>) -> (r: Result<Decoded, DecodeError>)
        ensures
            decoded_result(r) == raster_decoded(req.path@, req.bytes@),
    {
        let format = match format_for(req) {
            Some(f) => f,
            None => {
                return Err(DecodeError::UnsupportedFormat);
            },
        };
        match settle_frames(decode_animated(format, req.bytes)) {
            Some(r) => r,
            None => match still_image(format, req.bytes) {
                Ok(img) => Ok(Decoded::Still(img)),
                Err(m) => Err(DecodeError::Decode(m)),
            },
        }
    }
}

} // verus!
