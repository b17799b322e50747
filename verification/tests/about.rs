use reveal_viewer::about::{
    asset_line, assets, credit_line, dependencies, features, features_line, license_line, issues_url, licenses_url, rustc_line, rustc_line_for,
    version_line, version_line_for, REPOSITORY, VERSION,
};

/// The `[dependencies]` table of the crate's manifest.
const MANIFEST: &str = r#"[package]
name = "reveal_viewer"

[dependencies]
lexical-sort = "=0.3.1"
kamadak-exif = "=0.6.1"
image = "=0.25.10"
serde = { version = "1", features = ["derive"] }
serde_json = "1"
directories = "6"
arboard = "3"
trash = "5"
open = "5"
crossbeam-channel = "0.5"
rand = "0.9"
clap = { version = "4", features = ["derive"] }
jxl-oxide = "0.12"
resvg = "0.45"
usvg = "0.45"
fast_image_resize = "5"
log = "0.4"
env_logger = "0.11"
thiserror = "2"
"#;

#[test]
fn dependencies_are_sorted_and_complete() {
    let deps = dependencies();
    let names: Vec<&str> = deps.iter().map(|d| d.name).collect();
    let mut sorted = names.clone();
    sorted.sort_unstable();
    assert_eq!(names, sorted);
    assert!(deps.iter().all(|d| !d.license.is_empty()));
    assert!(deps.iter().all(|d| d.repository.starts_with("https://")));
}

#[test]
fn assets_are_credited() {
    let list = assets();
    assert!(!list.is_empty());
    assert!(list.iter().all(|a| !a.license.is_empty()));
    assert!(list.iter().all(|a| !a.detail.is_empty()));
    assert!(list.iter().all(|a| a.repository.starts_with("https://")));
    assert!(list.iter().any(|a| a.name == "Lucide"), "the bundled icons must be credited");
}

#[test]
fn version_line_includes_commit_when_known() {
    let line = version_line();
    assert!(line.starts_with(&format!("Version {VERSION}")));
}

#[test]
fn every_manifest_dependency_is_credited() {
    let deps = dependencies();
    let mut names = Vec::new();
    for line in MANIFEST
        .lines()
        .skip_while(|line| line.trim() != "[dependencies]")
        .skip(1)
        .take_while(|line| !line.starts_with('['))
    {
        let Some((name, _)) = line.split_once('=') else {
            continue;
        };
        let name = name.trim();
        if !name.is_empty() {
            names.push(name);
        }
    }
    assert!(!names.is_empty(), "no dependencies parsed from the manifest");
    for name in names {
        let credited = match name {
            "gpui" => "gpui-unofficial",
            "gpui_platform" => "gpui-platform-gpui-unofficial",
            other => other,
        };
        let raw_enabled = features().contains(&"raw");
        let updates_enabled = features().contains(&"updates");
        if (credited == "rawler" && !raw_enabled) || (credited == "self_update" && !updates_enabled) {
            continue;
        }
        assert!(
            deps.iter().any(|d| d.name == credited),
            "{credited} is missing from the third-party list"
        );
    }
}

#[test]
fn optional_dependencies_track_features() {
    let deps = dependencies();
    let listed = deps.iter().any(|d| d.name == "rawler");
    assert_eq!(listed, features().contains(&"raw"));
    let listed = deps.iter().any(|d| d.name == "self_update");
    assert_eq!(listed, features().contains(&"updates"));
}

#[test]
fn build_lines_fall_back_when_unknown() {
    assert_eq!(features_line(), "none");
    assert_eq!(rustc_line_for(""), "unknown");
    assert_eq!(version_line_for(""), format!("Version {VERSION}"));
}

#[test]
fn build_lines_show_what_the_build_recorded() {
    assert_eq!(rustc_line_for("rustc 1.88.0"), "rustc 1.88.0");
    assert_eq!(version_line_for("1a2b3c4"), format!("Version {VERSION} (1a2b3c4)"));
    assert_eq!(rustc_line(), rustc_line_for(reveal_viewer::about::RUSTC));
    assert_eq!(version_line(), version_line_for(reveal_viewer::about::COMMIT));
}

#[test]
fn project_links_hang_off_the_repository() {
    assert_eq!(issues_url(), format!("{REPOSITORY}/issues"));
    assert_eq!(licenses_url(), "https://github.com/knst0/reveal/blob/main/LICENSE");
}

#[test]
fn credit_lines_read_as_the_about_tab_shows_them() {
    let deps = dependencies();
    assert_eq!(credit_line(&deps[0]), format!("{} {}", deps[0].name, deps[0].version));
    assert_eq!(asset_line(&assets()[0]), "Lucide \u{2014} Toolbar and menu icons");
    assert_eq!(license_line(), "Reveal itself is distributed under MIT.");
}
