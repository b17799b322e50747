use reveal_viewer::decode::{
    choose_decoder, exif_orientation, looks_like_avif, looks_like_jxl, looks_like_svg, DecodeError,
    DecodeRequest, Decoded, Decoder, DecoderKind, JxlDecoder, Orientation, SvgDecoder,
};
use reveal_viewer::decode::{is_raster_extension, RASTER_EXTENSIONS};
use reveal_viewer::raster::RasterDecoder;

fn png_bytes() -> Vec<u8> {
    let img = image::RgbaImage::from_raw(2, 1, vec![255, 0, 0, 255, 0, 0, 255, 128]).unwrap();
    let mut out = std::io::Cursor::new(Vec::new());
    img.write_to(&mut out, image::ImageFormat::Png).unwrap();
    out.into_inner()
}

fn request<'a>(path: &'a str, bytes: &'a [u8]) -> DecodeRequest<'a> {
    DecodeRequest { path, bytes, target_width: 0, target_height: 0 }
}

#[test]
fn raster_decoder_reads_a_png() {
    let bytes = png_bytes();
    let req = request("/p/a.png", &bytes);
    assert!(RasterDecoder.probe(&req));
    assert_eq!(RasterDecoder.name(), "raster");
    match RasterDecoder.decode(&req).unwrap() {
        Decoded::Still(img) => {
            assert_eq!((img.width, img.height), (2, 1));
            assert_eq!(img.rgba, vec![255, 0, 0, 255, 0, 0, 255, 128]);
        }
        Decoded::Animation(_) => panic!("a plain PNG is not an animation"),
    }
    assert_eq!(choose_decoder(&req).unwrap(), DecoderKind::Raster);
    assert_eq!(exif_orientation(&bytes), Orientation::Normal);
}

#[test]
fn unknown_bytes_have_no_decoder() {
    let bytes = b"hello".to_vec();
    let req = request("/p/a.txt", &bytes);
    assert!(matches!(choose_decoder(&req), Err(DecodeError::NoDecoder)));
    assert!(matches!(RasterDecoder.decode(&req), Err(DecodeError::UnsupportedFormat)));
    let broken = request("/p/a.png", &bytes);
    assert!(matches!(RasterDecoder.decode(&broken), Err(DecodeError::Decode(_))));
}

#[test]
fn signatures_pick_svg_and_jpeg_xl() {
    let svg = b"<?xml version=\"1.0\"?><svg xmlns=\"http://www.w3.org/2000/svg\"/>".to_vec();
    assert!(looks_like_svg(&svg));
    assert!(SvgDecoder.probe(&request("/p/a.bin", &svg)));
    assert_eq!(choose_decoder(&request("/p/a.bin", &svg)).unwrap(), DecoderKind::Svg);
    let jxl = vec![0xff, 0x0a, 0, 0];
    assert!(looks_like_jxl(&jxl));
    assert!(JxlDecoder.probe(&request("/p/a.bin", &jxl)));
    assert_eq!(choose_decoder(&request("/p/x.jxl", b"")).unwrap(), DecoderKind::Jxl);
    let avif = vec![0, 0, 0, 0x1c, b'f', b't', b'y', b'p', b'a', b'v', b'i', b'f'];
    assert!(looks_like_avif(&avif));
    assert_eq!(DecodeError::NoDecoder.message(), "no decoder matched this file");
}

#[test]
fn every_listed_raster_extension_is_actually_supported() {
    for ext in RASTER_EXTENSIONS {
        assert!(is_raster_extension(ext), "{ext} is listed but not decodable");
    }
}

#[test]
fn raster_extensions_follow_the_image_table() {
    for ext in ["PNG", "jfif", "apng", "Tiff", "pam", "ff", "qoi", "avif"] {
        assert!(is_raster_extension(ext), "{ext} should be decodable");
    }
    for ext in ["dds", "DDS", "svg", "jxl", "pcx", ""] {
        assert!(!is_raster_extension(ext), "{ext} should not be decodable");
    }
}
