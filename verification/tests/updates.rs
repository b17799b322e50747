use reveal_viewer::config::{Cache, Channel, Updates};
use reveal_viewer::update::{
    absorb_check, absorb_install, accepts, changelog_url, compare_prerelease, decline_updates,
    is_due, is_newer, is_prerelease, is_skipped, pick_upgrade, record_check_at,
    should_run_check_at, skip_version, take_upgrade_notice, Rank, UpdateNotice, UpdateStatus,
    CHECK_INTERVAL_SECS, VERSION,
};

fn chars(s: &str) -> Vec<char> {
    s.chars().collect()
}

#[test]
fn newer_versions_compare_by_number() {
    assert!(is_newer("1.2.3", "1.2.4"));
    assert!(is_newer("1.2.3", "1.10.0"));
    assert!(!is_newer("1.10.0", "1.2.3"));
    assert!(is_newer("v1.0", "1.0.1"));
    assert!(!is_newer("1.0", "1.0.0"));
}

#[test]
fn a_release_is_newer_than_its_prerelease() {
    assert!(is_newer("1.0.0-beta.1", "1.0.0"));
    assert!(!is_newer("1.0.0", "1.0.0-beta.1"));
    assert!(is_newer("1.0.0-beta.1", "1.0.0-beta.2"));
    assert!(is_newer("1.0.0-beta.2", "1.0.0-beta.10"));
    assert!(is_newer("1.0.0-alpha", "1.0.0-beta"));
}

#[test]
fn build_metadata_is_ignored() {
    assert!(!is_newer("1.0.0+abc", "1.0.0+def"));
}

#[test]
fn no_version_is_newer_than_itself() {
    for v in ["0.1.0", "1.0.0-rc.1", "v2", ""] {
        assert!(!is_newer(v, v));
    }
}

#[test]
fn prerelease_pieces_rank_numbers_below_words() {
    assert_eq!(compare_prerelease(&chars("1"), &chars("alpha")), Rank::Lower);
    assert_eq!(compare_prerelease(&chars("beta"), &chars("2")), Rank::Higher);
    assert_eq!(compare_prerelease(&chars("rc.1"), &chars("rc.1")), Rank::Equal);
    assert_eq!(compare_prerelease(&chars("rc"), &chars("rc.1")), Rank::Lower);
}

#[test]
fn stable_channel_skips_prereleases() {
    assert!(is_prerelease("1.0.0-beta.1"));
    assert!(!is_prerelease("1.0.0"));
    assert!(!accepts(Channel::Stable, "1.0.0-beta.1"));
    assert!(accepts(Channel::Beta, "1.0.0-beta.1"));
    assert!(accepts(Channel::Stable, "1.0.0"));
}

#[test]
fn the_newest_acceptable_version_is_picked() {
    let versions = vec!["0.2.0", "0.3.0-beta.1", "0.2.5", "0.0.9"];
    assert_eq!(pick_upgrade(Channel::Stable, "0.1.0", &versions), Some("0.2.5"));
    assert_eq!(pick_upgrade(Channel::Beta, "0.1.0", &versions), Some("0.3.0-beta.1"));
    assert_eq!(pick_upgrade(Channel::Stable, "0.2.5", &versions), None);
}

#[test]
fn checks_are_due_after_the_interval() {
    assert!(is_due(None, 0, CHECK_INTERVAL_SECS));
    assert!(!is_due(Some(100), 100 + CHECK_INTERVAL_SECS - 1, CHECK_INTERVAL_SECS));
    assert!(is_due(Some(100), 100 + CHECK_INTERVAL_SECS, CHECK_INTERVAL_SECS));
    assert!(!is_due(Some(500), 10, CHECK_INTERVAL_SECS));
}

#[test]
fn checks_run_only_while_enabled() {
    let cache = Cache::default();
    let on = Updates { check: true, auto_install: false, channel: Channel::Stable };
    let off = Updates { check: false, ..on.clone() };
    assert!(should_run_check_at(&on, &cache, 5));
    assert!(!should_run_check_at(&off, &cache, 5));
    let mut checked = Cache::default();
    record_check_at(&mut checked, 5);
    assert_eq!(checked.last_update_check, Some(5));
    assert!(!should_run_check_at(&on, &checked, 6));
}

#[test]
fn skipped_versions_are_remembered() {
    let mut cache = Cache::default();
    assert!(!is_skipped(&cache, "0.2.0"));
    skip_version(&mut cache, "0.2.0");
    assert!(is_skipped(&cache, "0.2.0"));
    assert!(!is_skipped(&cache, "0.3.0"));
}

#[test]
fn changelog_links_carry_a_v() {
    assert_eq!(changelog_url("1.2.0"), "https://github.com/knst0/reveal/releases/tag/v1.2.0");
    assert_eq!(changelog_url("v1.2.0"), "https://github.com/knst0/reveal/releases/tag/v1.2.0");
}

#[test]
fn an_installed_update_is_announced_on_the_next_launch() {
    let mut cache = Cache::default();
    cache.update_pending_version = Some(VERSION.to_string());
    cache.last_launched_version = Some("0.0.9".to_string());
    let notice = take_upgrade_notice(&mut cache);
    assert_eq!(
        notice,
        Some(UpdateNotice::Upgraded { from: Some("0.0.9".to_string()), to: VERSION.to_string() })
    );
    assert_eq!(cache.update_pending_version, None);
    assert_eq!(cache.last_launched_version, Some(VERSION.to_string()));
    assert_eq!(take_upgrade_notice(&mut cache), None);
}

#[test]
fn a_first_launch_announces_nothing() {
    let mut cache = Cache::default();
    assert_eq!(take_upgrade_notice(&mut cache), None);
    assert_eq!(cache.last_launched_version, Some(VERSION.to_string()));
}

#[test]
fn a_finished_check_offers_versions_not_skipped() {
    let mut cache = Cache::default();
    let r = absorb_check(
        &mut cache,
        None,
        UpdateStatus::Available { version: "0.2.0".to_string() },
        42,
    );
    assert_eq!(r, Some(UpdateNotice::Available { version: "0.2.0".to_string() }));
    assert_eq!(cache.last_update_check, Some(42));

    skip_version(&mut cache, "0.2.0");
    let r = absorb_check(
        &mut cache,
        None,
        UpdateStatus::Available { version: "0.2.0".to_string() },
        43,
    );
    assert_eq!(r, None);
}

#[test]
fn a_finished_install_is_remembered_as_pending() {
    let mut cache = Cache::default();
    let r = absorb_check(
        &mut cache,
        None,
        UpdateStatus::Installed { version: "0.2.0".to_string() },
        1,
    );
    assert_eq!(r, Some(UpdateNotice::Installed { version: "0.2.0".to_string() }));
    assert_eq!(cache.update_pending_version, Some("0.2.0".to_string()));

    let before = Some(UpdateNotice::Upgraded { from: None, to: "0.1.0".to_string() });
    let r = absorb_check(&mut cache, before.clone(), UpdateStatus::UpToDate, 2);
    assert_eq!(r, before);
    let r = absorb_check(
        &mut cache,
        before.clone(),
        UpdateStatus::Failed { error: "offline".to_string() },
        3,
    );
    assert_eq!(r, before);
}

#[test]
fn installing_on_request_drops_the_notice_unless_installed() {
    let mut cache = Cache::default();
    assert_eq!(absorb_install(&mut cache, UpdateStatus::Failed { error: "x".to_string() }), None);
    assert_eq!(cache.update_pending_version, None);
    assert_eq!(
        absorb_install(&mut cache, UpdateStatus::Installed { version: "0.3.0".to_string() }),
        Some(UpdateNotice::Installed { version: "0.3.0".to_string() })
    );
    assert_eq!(cache.update_pending_version, Some("0.3.0".to_string()));
}

#[test]
fn declining_updates_skips_the_offered_version() {
    let mut settings = Updates { check: true, auto_install: true, channel: Channel::Beta };
    let mut cache = Cache::default();
    let notice = Some(UpdateNotice::Available { version: "0.4.0".to_string() });
    decline_updates(&mut settings, &mut cache, &notice);
    assert!(!settings.check);
    assert!(settings.auto_install);
    assert_eq!(settings.channel, Channel::Beta);
    assert!(is_skipped(&cache, "0.4.0"));

    let mut cache = Cache::default();
    decline_updates(&mut settings, &mut cache, &None);
    assert_eq!(cache.update_skipped_version, None);
}
