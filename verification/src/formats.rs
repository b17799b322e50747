//! The file types the viewer registers with the desktop, and the macOS
//! property list that declares them.
use vstd::prelude::*;

use crate::decode::decodable_list;
use crate::sorting::{sorted_unique, strictly_sorted, texts_of};
use crate::text::{concat, same_text};

verus! {

/// A registered file type: its extension, MIME type and description.
#[derive(Debug, Clone, Copy)]
pub struct FormatInfo {
    pub extension: &'static str,
    pub mime: &'static str,
    pub description: &'static str,
}

impl View for FormatInfo {
    type V = (Seq<char>, Seq<char>, Seq<char>);

    open spec fn view(&self) -> (Seq<char>, Seq<char>, Seq<char>) {
        (self.extension@, self.mime@, self.description@)
    }
}

/// The registered file types, in order.
pub open spec fn format_table() -> Seq<(Seq<char>, Seq<char>, Seq<char>)> {
    seq![
        ("png"@, "image/png"@, "PNG image"@),
        ("jpg"@, "image/jpeg"@, "JPEG image"@),
        ("jpeg"@, "image/jpeg"@, "JPEG image"@),
        ("gif"@, "image/gif"@, "GIF image"@),
        ("webp"@, "image/webp"@, "WebP image"@),
        ("bmp"@, "image/bmp"@, "Bitmap image"@),
        ("tif"@, "image/tiff"@, "TIFF image"@),
        ("tiff"@, "image/tiff"@, "TIFF image"@),
        ("ico"@, "image/x-icon"@, "Icon"@),
        ("tga"@, "image/x-tga"@, "TGA image"@),
        ("pnm"@, "image/x-portable-anymap"@, "PNM image"@),
        ("pbm"@, "image/x-portable-bitmap"@, "PBM image"@),
        ("pgm"@, "image/x-portable-graymap"@, "PGM image"@),
        ("ppm"@, "image/x-portable-pixmap"@, "PPM image"@),
        ("pam"@, "image/x-portable-arbitrarymap"@, "PAM image"@),
        ("ff"@, "image/x-farbfeld"@, "farbfeld image"@),
        ("qoi"@, "image/qoi"@, "QOI image"@),
        ("exr"@, "image/x-exr"@, "OpenEXR image"@),
        ("hdr"@, "image/vnd.radiance"@, "Radiance HDR"@),
        ("avif"@, "image/avif"@, "AVIF image"@),
        ("avifs"@, "image/avif-sequence"@, "AVIF sequence"@),
        ("svg"@, "image/svg+xml"@, "SVG image"@),
        ("svgz"@, "image/svg+xml-compressed"@, "SVG image"@),
        ("jxl"@, "image/jxl"@, "JPEG XL image"@),
    ]
}

pub open spec fn infos_view(v: Seq<FormatInfo>) -> Seq<(Seq<char>, Seq<char>, Seq<char>)> {
    v.map_values(|f: FormatInfo| f@)
}

/// The registered file types.
pub fn formats() -> (r: Vec<FormatInfo>)
    ensures
        infos_view(r@) == format_table(),
{
    let r: Vec<FormatInfo> = vec![
        FormatInfo { extension: "png", mime: "image/png", description: "PNG image" },
        FormatInfo { extension: "jpg", mime: "image/jpeg", description: "JPEG image" },
        FormatInfo { extension: "jpeg", mime: "image/jpeg", description: "JPEG image" },
        FormatInfo { extension: "gif", mime: "image/gif", description: "GIF image" },
        FormatInfo { extension: "webp", mime: "image/webp", description: "WebP image" },
        FormatInfo { extension: "bmp", mime: "image/bmp", description: "Bitmap image" },
        FormatInfo { extension: "tif", mime: "image/tiff", description: "TIFF image" },
        FormatInfo { extension: "tiff", mime: "image/tiff", description: "TIFF image" },
        FormatInfo { extension: "ico", mime: "image/x-icon", description: "Icon" },
        FormatInfo { extension: "tga", mime: "image/x-tga", description: "TGA image" },
        FormatInfo { extension: "pnm", mime: "image/x-portable-anymap", description: "PNM image" },
        FormatInfo { extension: "pbm", mime: "image/x-portable-bitmap", description: "PBM image" },
        FormatInfo { extension: "pgm", mime: "image/x-portable-graymap", description: "PGM image" },
        FormatInfo { extension: "ppm", mime: "image/x-portable-pixmap", description: "PPM image" },
        FormatInfo { extension: "pam", mime: "image/x-portable-arbitrarymap", description: "PAM image" },
        FormatInfo { extension: "ff", mime: "image/x-farbfeld", description: "farbfeld image" },
        FormatInfo { extension: "qoi", mime: "image/qoi", description: "QOI image" },
        FormatInfo { extension: "exr", mime: "image/x-exr", description: "OpenEXR image" },
        FormatInfo { extension: "hdr", mime: "image/vnd.radiance", description: "Radiance HDR" },
        FormatInfo { extension: "avif", mime: "image/avif", description: "AVIF image" },
        FormatInfo { extension: "avifs", mime: "image/avif-sequence", description: "AVIF sequence" },
        FormatInfo { extension: "svg", mime: "image/svg+xml", description: "SVG image" },
        FormatInfo { extension: "svgz", mime: "image/svg+xml-compressed", description: "SVG image" },
        FormatInfo { extension: "jxl", mime: "image/jxl", description: "JPEG XL image" },
    ];
    assert(infos_view(r@) =~= format_table());
    r
}

/// The MIME types of the registered file types.
pub open spec fn table_mimes() -> Seq<Seq<char>> {
    format_table().map_values(|f: (Seq<char>, Seq<char>, Seq<char>)| f.1)
}

/// The extensions of the registered file types.
pub open spec fn table_extensions() -> Seq<Seq<char>> {
    format_table().map_values(|f: (Seq<char>, Seq<char>, Seq<char>)| f.0)
}

/// The MIME types of the registered file types, sorted, each once.
pub fn mime_list() -> (r: Vec<&'static str>)
    ensures
        strictly_sorted(texts_of(r@)),
        forall|x: Seq<char>| texts_of(r@).contains(x) <==> table_mimes().contains(x),
{
    let table = formats();
    let mut mimes: Vec<&'static str> = Vec::new();
    let mut i: usize = 0;
    while i < table.len()
        invariant
            i <= table@.len(),
            infos_view(table@) == format_table(),
            texts_of(mimes@) == table_mimes().take(i as int),
        decreases table@.len() - i,
    {
        mimes.push(table[i].mime);
        proof {
            assert(table_mimes().take(i + 1) =~= table_mimes().take(i as int).push(table@[i as int].mime@));
            assert(texts_of(mimes@) =~= table_mimes().take(i + 1));
        }
        i = i + 1;
    }
    assert(table_mimes().take(i as int) =~= table_mimes());
    sorted_unique(&mimes)
}

/// The extensions of the registered file types, in table order.
pub fn extensions() -> (r: Vec<&'static str>)
    ensures
        texts_of(r@) == table_extensions(),
{
    let table = formats();
    let mut exts: Vec<&'static str> = Vec::new();
    let mut i: usize = 0;
    while i < table.len()
        invariant
            i <= table@.len(),
            infos_view(table@) == format_table(),
            texts_of(exts@) == table_extensions().take(i as int),
        decreases table@.len() - i,
    {
        exts.push(table[i].extension);
        proof {
            assert(table_extensions().take(i + 1) =~= table_extensions().take(i as int).push(
                table@[i as int].extension@,
            ));
            assert(texts_of(exts@) =~= table_extensions().take(i + 1));
        }
        i = i + 1;
    }
    assert(table_extensions().take(i as int) =~= table_extensions());
    exts
}

/// The uniform type identifier macOS knows a type by; types it has none
/// for get one under the application's identifier.
pub open spec fn uti_of(mime: Seq<char>, extension: Seq<char>) -> Seq<char> {
    if false {
        Seq::empty()
    } else if mime == "image/png"@ {
        "public.png"@
    } else if mime == "image/jpeg"@ {
        "public.jpeg"@
    } else if mime == "image/gif"@ {
        "com.compuserve.gif"@
    } else if mime == "image/webp"@ {
        "org.webmproject.webp"@
    } else if mime == "image/bmp"@ {
        "com.microsoft.bmp"@
    } else if mime == "image/tiff"@ {
        "public.tiff"@
    } else if mime == "image/x-icon"@ {
        "com.microsoft.ico"@
    } else if mime == "image/x-tga"@ {
        "com.truevision.tga-image"@
    } else if mime == "image/vnd.radiance"@ {
        "public.radiance"@
    } else if mime == "image/avif"@ {
        "public.avif"@
    } else if mime == "image/avif-sequence"@ {
        "public.avif"@
    } else if mime == "image/svg+xml"@ {
        "public.svg-image"@
    } else if mime == "image/jxl"@ {
        "public.jpeg-xl"@
    } else {
        "io.github.knst0.reveal."@ + extension
    }
}

fn uti(mime: &str, extension: &str) -> (r: String)
    ensures
        r@ == uti_of(mime@, extension@),
{
    if same_text(mime, "image/png") {
        return String::from_str("public.png");
    }
    if same_text(mime, "image/jpeg") {
        return String::from_str("public.jpeg");
    }
    if same_text(mime, "image/gif") {
        return String::from_str("com.compuserve.gif");
    }
    if same_text(mime, "image/webp") {
        return String::from_str("org.webmproject.webp");
    }
    if same_text(mime, "image/bmp") {
        return String::from_str("com.microsoft.bmp");
    }
    if same_text(mime, "image/tiff") {
        return String::from_str("public.tiff");
    }
    if same_text(mime, "image/x-icon") {
        return String::from_str("com.microsoft.ico");
    }
    if same_text(mime, "image/x-tga") {
        return String::from_str("com.truevision.tga-image");
    }
    if same_text(mime, "image/vnd.radiance") {
        return String::from_str("public.radiance");
    }
    if same_text(mime, "image/avif") {
        return String::from_str("public.avif");
    }
    if same_text(mime, "image/avif-sequence") {
        return String::from_str("public.avif");
    }
    if same_text(mime, "image/svg+xml") {
        return String::from_str("public.svg-image");
    }
    if same_text(mime, "image/jxl") {
        return String::from_str("public.jpeg-xl");
    }
    concat("io.github.knst0.reveal.", extension)
}

/// The property-list entry declaring one file type.
pub open spec fn plist_entry(f: (Seq<char>, Seq<char>, Seq<char>)) -> Seq<char> {
    "\t\t<dict>\n\t\t\t<key>CFBundleTypeName</key>\n\t\t\t<string>"@ + f.2 + "</string>\n\t\t\t<key>CFBundleTypeRole</key>\n\t\t\t<string>Viewer</string>\n\t\t\t<key>LSHandlerRank</key>\n\t\t\t<string>Alternate</string>\n\t\t\t<key>CFBundleTypeExtensions</key>\n\t\t\t<array>\n\t\t\t\t<string>"@ + f.0
        + "</string>\n\t\t\t</array>\n\t\t\t<key>LSItemContentTypes</key>\n\t\t\t<array>\n\t\t\t\t<string>"@ + uti_of(f.1, f.0)
        + "</string>\n\t\t\t</array>\n\t\t\t<key>CFBundleTypeIconFile</key>\n\t\t\t<string>reveal.icns</string>\n\t\t</dict>\n"@
}

/// The entries declaring some file types, in order.
pub open spec fn plist_entries(fs: Seq<(Seq<char>, Seq<char>, Seq<char>)>) -> Seq<char>
    decreases fs.len(),
{
    if fs.len() == 0 {
        Seq::empty()
    } else {
        plist_entries(fs.drop_last()) + plist_entry(fs.last())
    }
}

/// The application's property list for a version.
pub open spec fn plist_text(version: Seq<char>) -> Seq<char> {
    "<?xml version=\"1.0\" encoding=\"UTF-8\"?>\n<!DOCTYPE plist PUBLIC \"-//Apple//DTD PLIST 1.0//EN\" \"http://www.apple.com/DTDs/PropertyList-1.0.dtd\">\n<plist version=\"1.0\">\n<dict>\n\t<key>CFBundleName</key>\n\t<string>Reveal</string>\n\t<key>CFBundleDisplayName</key>\n\t<string>Reveal</string>\n\t<key>CFBundleIdentifier</key>\n\t<string>io.github.knst0.reveal</string>\n\t<key>CFBundleExecutable</key>\n\t<string>reveal</string>\n\t<key>CFBundleIconFile</key>\n\t<string>reveal.icns</string>\n\t<key>CFBundlePackageType</key>\n\t<string>APPL</string>\n\t<key>CFBundleShortVersionString</key>\n\t<string>"@ + version
        + "</string>\n\t<key>CFBundleVersion</key>\n\t<string>"@ + version
        + "</string>\n\t<key>LSMinimumSystemVersion</key>\n\t<string>11.0</string>\n\t<key>NSHighResolutionCapable</key>\n\t<true/>\n\t<key>CFBundleDocumentTypes</key>\n\t<array>\n"@
        + plist_entries(format_table()) + "\t</array>\n</dict>\n</plist>\n"@
}

fn plist_entry_of(f: &FormatInfo) -> (r: String)
    ensures
        r@ == plist_entry(f@),
{
    let u = uti(f.mime, f.extension);
    let a = concat("\t\t<dict>\n\t\t\t<key>CFBundleTypeName</key>\n\t\t\t<string>", f.description);
    let b = concat(a.as_str(), "</string>\n\t\t\t<key>CFBundleTypeRole</key>\n\t\t\t<string>Viewer</string>\n\t\t\t<key>LSHandlerRank</key>\n\t\t\t<string>Alternate</string>\n\t\t\t<key>CFBundleTypeExtensions</key>\n\t\t\t<array>\n\t\t\t\t<string>");
    let c = concat(b.as_str(), f.extension);
    let d = concat(c.as_str(), "</string>\n\t\t\t</array>\n\t\t\t<key>LSItemContentTypes</key>\n\t\t\t<array>\n\t\t\t\t<string>");
    let e = concat(d.as_str(), u.as_str());
    concat(e.as_str(), "</string>\n\t\t\t</array>\n\t\t\t<key>CFBundleTypeIconFile</key>\n\t\t\t<string>reveal.icns</string>\n\t\t</dict>\n")
}

/// The macOS property list declaring the application and the file types it opens.
pub fn info_plist(version: &str) -> (r: String)
    ensures
        r@ == plist_text(version@),
{
    let table = formats();
    let mut doc_types = String::new();
    let mut i: usize = 0;
    proof {
        assert(format_table().take(0) =~= Seq::<(Seq<char>, Seq<char>, Seq<char>)>::empty());
    }
    while i < table.len()
        invariant
            i <= table@.len(),
            infos_view(table@) == format_table(),
            doc_types@ == plist_entries(format_table().take(i as int)),
        decreases table@.len() - i,
    {
        let entry = plist_entry_of(&table[i]);
        proof {
            assert(format_table().take(i + 1).drop_last() =~= format_table().take(i as int));
            assert(format_table().take(i + 1).last() == table@[i as int]@);
        }
        doc_types = concat(doc_types.as_str(), entry.as_str());
        i = i + 1;
    }
    assert(format_table().take(i as int) =~= format_table());
    let a = concat("<?xml version=\"1.0\" encoding=\"UTF-8\"?>\n<!DOCTYPE plist PUBLIC \"-//Apple//DTD PLIST 1.0//EN\" \"http://www.apple.com/DTDs/PropertyList-1.0.dtd\">\n<plist version=\"1.0\">\n<dict>\n\t<key>CFBundleName</key>\n\t<string>Reveal</string>\n\t<key>CFBundleDisplayName</key>\n\t<string>Reveal</string>\n\t<key>CFBundleIdentifier</key>\n\t<string>io.github.knst0.reveal</string>\n\t<key>CFBundleExecutable</key>\n\t<string>reveal</string>\n\t<key>CFBundleIconFile</key>\n\t<string>reveal.icns</string>\n\t<key>CFBundlePackageType</key>\n\t<string>APPL</string>\n\t<key>CFBundleShortVersionString</key>\n\t<string>", version);
    let b = concat(a.as_str(), "</string>\n\t<key>CFBundleVersion</key>\n\t<string>");
    let c = concat(b.as_str(), version);
    let d = concat(c.as_str(), "</string>\n\t<key>LSMinimumSystemVersion</key>\n\t<string>11.0</string>\n\t<key>NSHighResolutionCapable</key>\n\t<true/>\n\t<key>CFBundleDocumentTypes</key>\n\t<array>\n");
    let e = concat(d.as_str(), doc_types.as_str());
    concat(e.as_str(), "\t</array>\n</dict>\n</plist>\n")
}

/// Every extension the decoders take can be registered with the desktop.
pub proof fn law_decodable_extensions_registered()
    ensures
        forall|x: Seq<char>| decodable_list().contains(x) ==> table_extensions().contains(x),
{
    assert forall|x: Seq<char>| decodable_list().contains(x) implies table_extensions().contains(x) by {
        let i = choose|i: int| 0 <= i < decodable_list().len() && decodable_list()[i] == x;
        let t = table_extensions();
        assert(t.len() == format_table().len());
        if i == 0 {
            assert(t[0] == x);
        }
        if i == 1 {
            assert(t[1] == x);
        }
        if i == 2 {
            assert(t[2] == x);
        }
        if i == 3 {
            assert(t[3] == x);
        }
        if i == 4 {
            assert(t[4] == x);
        }
        if i == 5 {
            assert(t[5] == x);
        }
        if i == 6 {
            assert(t[8] == x);
        }
        if i == 7 {
            assert(t[6] == x);
        }
        if i == 8 {
            assert(t[7] == x);
        }
        if i == 9 {
            assert(t[9] == x);
        }
        if i == 10 {
            assert(t[15] == x);
        }
        if i == 11 {
            assert(t[16] == x);
        }
        if i == 12 {
            assert(t[10] == x);
        }
        if i == 13 {
            assert(t[11] == x);
        }
        if i == 14 {
            assert(t[12] == x);
        }
        if i == 15 {
            assert(t[13] == x);
        }
        if i == 16 {
            assert(t[14] == x);
        }
        if i == 17 {
            assert(t[17] == x);
        }
        if i == 18 {
            assert(t[18] == x);
        }
        if i == 19 {
            assert(t[21] == x);
        }
        if i == 20 {
            assert(t[22] == x);
        }
        if i == 21 {
            assert(t[23] == x);
        }
    }
}

} // verus!
