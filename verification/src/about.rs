//! What the About page shows: version, build, credits and where things are kept.
use vstd::prelude::*;

use crate::formats::{extensions, mime_list};
use crate::text::concat;

verus! {

pub const NAME: &'static str = "Reveal";

pub const DESCRIPTION: &'static str = "A fast image viewer, built with Rust and GPUI.";

pub const VERSION: &'static str = "0.1.0";

pub const REPOSITORY: &'static str = "https://github.com/knst0/reveal";

/// The compiler the library itself records; it records none, so this is
/// empty. A program that records its build passes its own values to
/// `rustc_line_for` and `version_line_for`.
pub const RUSTC: &'static str = "";

/// The commit the library itself records; it records none, so this is empty.
pub const COMMIT: &'static str = "";

/// The licence the application itself is distributed under.
pub const LICENSE: &'static str = "MIT";

/// A third-party crate the application is built with.
#[derive(Debug, Clone, Copy)]
pub struct Dependency {
    pub name: &'static str,
    pub version: &'static str,
    pub license: &'static str,
    pub repository: &'static str,
}

impl View for Dependency {
    type V = (Seq<char>, Seq<char>, Seq<char>, Seq<char>);

    open spec fn view(&self) -> (Seq<char>, Seq<char>, Seq<char>, Seq<char>) {
        (self.name@, self.version@, self.license@, self.repository@)
    }
}

/// The credited crates, by name.
pub open spec fn dependency_table() -> Seq<(Seq<char>, Seq<char>, Seq<char>, Seq<char>)> {
    seq![
        ("arboard"@, "3.7.0"@, "MIT OR Apache-2.0"@, "https://github.com/1Password/arboard"@),
        ("clap"@, "4.6.7"@, "MIT OR Apache-2.0"@, "https://github.com/clap-rs/clap"@),
        ("crossbeam-channel"@, "0.5.17"@, "MIT OR Apache-2.0"@, "https://github.com/crossbeam-rs/crossbeam"@),
        ("directories"@, "6.0.0"@, "MIT OR Apache-2.0"@, "https://github.com/soc/directories-rs"@),
        ("env_logger"@, "0.11.11"@, "MIT OR Apache-2.0"@, "https://github.com/rust-cli/env_logger"@),
        ("fast_image_resize"@, "5.5.0"@, "MIT OR Apache-2.0"@, "https://github.com/cykooz/fast_image_resize"@),
        ("image"@, "0.25.10"@, "MIT OR Apache-2.0"@, "https://github.com/image-rs/image"@),
        ("jxl-oxide"@, "0.12.6"@, "MIT OR Apache-2.0"@, "https://github.com/tirr-c/jxl-oxide"@),
        ("kamadak-exif"@, "0.6.1"@, "BSD-2-Clause"@, "https://github.com/kamadak/exif-rs"@),
        ("lexical-sort"@, "0.3.1"@, "MIT OR Apache-2.0"@, "https://github.com/Aloso/lexical-sort"@),
        ("log"@, "0.4.35"@, "MIT OR Apache-2.0"@, "https://github.com/rust-lang/log"@),
        ("open"@, "5.4.5"@, "MIT"@, "https://github.com/Byron/open-rs"@),
        ("rand"@, "0.9.5"@, "MIT OR Apache-2.0"@, "https://github.com/rust-random/rand"@),
        ("resvg"@, "0.45.1"@, "Apache-2.0 OR MIT"@, "https://github.com/linebender/resvg"@),
        ("serde"@, "1.0.229"@, "MIT OR Apache-2.0"@, "https://github.com/serde-rs/serde"@),
        ("serde_json"@, "1.0.154"@, "MIT OR Apache-2.0"@, "https://github.com/serde-rs/json"@),
        ("thiserror"@, "2.0.21"@, "MIT OR Apache-2.0"@, "https://github.com/dtolnay/thiserror"@),
        ("trash"@, "5.2.9"@, "MIT"@, "https://github.com/ArturKovacs/trash"@),
        ("usvg"@, "0.45.1"@, "Apache-2.0 OR MIT"@, "https://github.com/linebender/resvg"@),
    ]
}

/// The third-party crates the application is built with, sorted by name.
pub fn dependencies() -> (r: Vec<Dependency>)
    ensures
        r@.map_values(|d: Dependency| d@) == dependency_table(),
{
    let r: Vec<Dependency> = vec![
        Dependency { name: "arboard", version: "3.7.0", license: "MIT OR Apache-2.0", repository: "https://github.com/1Password/arboard" },
        Dependency { name: "clap", version: "4.6.7", license: "MIT OR Apache-2.0", repository: "https://github.com/clap-rs/clap" },
        Dependency { name: "crossbeam-channel", version: "0.5.17", license: "MIT OR Apache-2.0", repository: "https://github.com/crossbeam-rs/crossbeam" },
        Dependency { name: "directories", version: "6.0.0", license: "MIT OR Apache-2.0", repository: "https://github.com/soc/directories-rs" },
        Dependency { name: "env_logger", version: "0.11.11", license: "MIT OR Apache-2.0", repository: "https://github.com/rust-cli/env_logger" },
        Dependency { name: "fast_image_resize", version: "5.5.0", license: "MIT OR Apache-2.0", repository: "https://github.com/cykooz/fast_image_resize" },
        Dependency { name: "image", version: "0.25.10", license: "MIT OR Apache-2.0", repository: "https://github.com/image-rs/image" },
        Dependency { name: "jxl-oxide", version: "0.12.6", license: "MIT OR Apache-2.0", repository: "https://github.com/tirr-c/jxl-oxide" },
        Dependency { name: "kamadak-exif", version: "0.6.1", license: "BSD-2-Clause", repository: "https://github.com/kamadak/exif-rs" },
        Dependency { name: "lexical-sort", version: "0.3.1", license: "MIT OR Apache-2.0", repository: "https://github.com/Aloso/lexical-sort" },
        Dependency { name: "log", version: "0.4.35", license: "MIT OR Apache-2.0", repository: "https://github.com/rust-lang/log" },
        Dependency { name: "open", version: "5.4.5", license: "MIT", repository: "https://github.com/Byron/open-rs" },
        Dependency { name: "rand", version: "0.9.5", license: "MIT OR Apache-2.0", repository: "https://github.com/rust-random/rand" },
        Dependency { name: "resvg", version: "0.45.1", license: "Apache-2.0 OR MIT", repository: "https://github.com/linebender/resvg" },
        Dependency { name: "serde", version: "1.0.229", license: "MIT OR Apache-2.0", repository: "https://github.com/serde-rs/serde" },
        Dependency { name: "serde_json", version: "1.0.154", license: "MIT OR Apache-2.0", repository: "https://github.com/serde-rs/json" },
        Dependency { name: "thiserror", version: "2.0.21", license: "MIT OR Apache-2.0", repository: "https://github.com/dtolnay/thiserror" },
        Dependency { name: "trash", version: "5.2.9", license: "MIT", repository: "https://github.com/ArturKovacs/trash" },
        Dependency { name: "usvg", version: "0.45.1", license: "Apache-2.0 OR MIT", repository: "https://github.com/linebender/resvg" },
    ];
    assert(r@.map_values(|d: Dependency| d@) =~= dependency_table());
    r
}

/// A bundled asset made by others.
#[derive(Debug, Clone, Copy)]
pub struct Asset {
    pub name: &'static str,
    pub detail: &'static str,
    pub license: &'static str,
    pub repository: &'static str,
}

/// The bundled assets: the Lucide icons.
pub fn assets() -> (r: Vec<Asset>)
    ensures
        r@.len() == 1,
        r@[0].name@ == "Lucide"@,
        r@[0].detail@ == "Toolbar and menu icons"@,
        r@[0].license@ == "ISC"@,
        r@[0].repository@ == "https://github.com/lucide-icons/lucide"@,
{
    vec![
        Asset {
            name: "Lucide",
            detail: "Toolbar and menu icons",
            license: "ISC",
            repository: "https://github.com/lucide-icons/lucide",
        },
    ]
}

/// The version line for a recorded commit: the version, and the commit
/// when one was recorded.
pub open spec fn version_text_for(commit: Seq<char>) -> Seq<char> {
    if commit.len() == 0 {
        "Version "@ + VERSION@
    } else {
        "Version "@ + VERSION@ + " ("@ + commit + ")"@
    }
}

/// The version line of this library's own record.
pub open spec fn version_text() -> Seq<char> {
    version_text_for(COMMIT@)
}

/// The version line for the commit that the build recorded (empty when none was).
pub fn version_line_for(commit: &str) -> (r: String)
    ensures
        r@ == version_text_for(commit@),
{
    if commit.unicode_len() == 0 {
        concat("Version ", VERSION)
    } else {
        let a = concat("Version ", VERSION);
        let b = concat(a.as_str(), " (");
        let c = concat(b.as_str(), commit);
        concat(c.as_str(), ")")
    }
}

pub fn version_line() -> (r: String)
    ensures
        r@ == version_text(),
{
    version_line_for(COMMIT)
}

/// The optional features the application was built with; this build has none.
pub open spec fn feature_list() -> Seq<Seq<char>> {
    Seq::empty()
}

pub fn features() -> (r: Vec<&'static str>)
    ensures
        crate::sorting::texts_of(r@) == feature_list(),
{
    let r: Vec<&'static str> = Vec::new();
    assert(crate::sorting::texts_of(r@) =~= feature_list());
    r
}

/// Texts joined with a separator between each two.
pub open spec fn joined(s: Seq<Seq<char>>, sep: Seq<char>) -> Seq<char>
    decreases s.len(),
{
    if s.len() == 0 {
        Seq::empty()
    } else if s.len() == 1 {
        s[0]
    } else {
        joined(s.drop_last(), sep) + sep + s.last()
    }
}

/// The features line: the features joined by commas, or `none`.
pub fn features_line() -> (r: String)
    ensures
        ({
            let fs = feature_list();
            r@ == (if fs.len() == 0 {
                "none"@
            } else {
                joined(fs, ", "@)
            })
        }),
{
    let fs = features();
    if fs.len() == 0 {
        return String::from_str("none");
    }
    let mut out = String::from_str(fs[0]);
    let ghost t = crate::sorting::texts_of(fs@);
    let mut i: usize = 1;
    proof {
        assert(t.take(1).len() == 1);
        assert(joined(t.take(1), ", "@) == t.take(1)[0]);
    }
    while i < fs.len()
        invariant
            1 <= i <= fs@.len(),
            t == crate::sorting::texts_of(fs@),
            out@ == joined(t.take(i as int), ", "@),
        decreases fs@.len() - i,
    {
        let a = concat(out.as_str(), ", ");
        out = concat(a.as_str(), fs[i]);
        proof {
            assert(t.take(i + 1).drop_last() =~= t.take(i as int));
            assert(t.take(i + 1).last() == fs@[i as int]@);
        }
        i = i + 1;
    }
    assert(t.take(i as int) =~= t);
    out
}

/// The compiler line for the compiler that the build recorded: that
/// compiler, or `unknown` when none was recorded.
pub fn rustc_line_for<'a>(rustc: &'a str) -> (r: &'a str)
    ensures
        r@ == (if rustc@.len() == 0 {
            "unknown"@
        } else {
            rustc@
        }),
{
    if rustc.unicode_len() == 0 {
        "unknown"
    } else {
        rustc
    }
}

/// The compiler line of this library's own record.
pub fn rustc_line() -> (r: &'static str)
    ensures
        r@ == (if RUSTC@.len() == 0 {
            "unknown"@
        } else {
            RUSTC@
        }),
{
    rustc_line_for(RUSTC)
}

/// How many MIME types are registered.
pub fn format_count() -> (r: usize)
    ensures
        exists|v: Seq<&'static str>|
            crate::sorting::strictly_sorted(crate::sorting::texts_of(v)) && (forall|x: Seq<char>|
                crate::sorting::texts_of(v).contains(x) <==> crate::formats::table_mimes().contains(x))
                && r == v.len(),
{
    mime_list().len()
}

/// How many extensions are registered.
pub fn extension_count() -> (r: usize)
    ensures
        r == crate::formats::table_extensions().len(),
{
    extensions().len()
}

/// How many icons come from the Lucide set.
pub fn icon_count() -> (r: usize)
    ensures
        r == 14,
{
    crate::icons::LUCIDE_ICONS.len()
}

/// Where the configuration is kept, if anywhere.
pub fn config_location() -> (r: Option<String>)
    ensures
        r matches Some(p) ==> exists|d: Seq<char>| p@ == crate::config::path_join(d, crate::config::CONFIG_FILE@),
{
    crate::config::config_path()
}

/// Where the window state is kept, if anywhere.
pub fn cache_location() -> (r: Option<String>)
    ensures
        r matches Some(p) ==> exists|d: Seq<char>| p@ == crate::config::path_join(d, crate::config::CACHE_FILE@),
{
    crate::config::cache_path()
}

pub fn issues_url() -> (r: String)
    ensures
        r@ == REPOSITORY@ + "/issues"@,
{
    concat(REPOSITORY, "/issues")
}

pub fn licenses_url() -> (r: String)
    ensures
        r@ == REPOSITORY@ + "/blob/main/LICENSE"@,
{
    concat(REPOSITORY, "/blob/main/LICENSE")
}

/// The credit line of a dependency: its name and version.
pub fn credit_line(dep: &Dependency) -> (r: String)
    ensures
        r@ == dep.name@ + " "@ + dep.version@,
{
    let a = concat(dep.name, " ");
    concat(a.as_str(), dep.version)
}

/// The credit line of an asset: its name, a dash, and what it is.
pub fn asset_line(asset: &Asset) -> (r: String)
    ensures
        r@ == asset.name@ + " \u{2014} "@ + asset.detail@,
{
    let a = concat(asset.name, " \u{2014} ");
    concat(a.as_str(), asset.detail)
}

/// The line saying what licence the application itself is under.
pub fn license_line() -> (r: String)
    ensures
        r@ == NAME@ + " itself is distributed under "@ + LICENSE@ + "."@,
{
    let a = concat(NAME, " itself is distributed under ");
    let b = concat(a.as_str(), LICENSE);
    concat(b.as_str(), ".")
}

} // verus!
