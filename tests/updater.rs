use release_updater::updater::{
    compare, compare_text, select_release, APIResponse, Release, ReleaseAsset, UpdateChannel,
    UpdateError, Updater, PRERELEASE_PATCH,
};
use release_updater::version::{parse_version, Version};

fn v(major: u64, minor: u64, patch: u64) -> Version {
    Version { major, minor, patch }
}

fn release(version: &str) -> Release {
    Release {
        version: version.to_string(),
        assets: vec![ReleaseAsset {
            name: format!("tool-{}-x86_64-unknown-linux-gnu.zip", version),
            download_url: format!("https://example.invalid/{}", version),
        }],
    }
}

fn label(r: &APIResponse) -> Option<&str> {
    match r {
        APIResponse::NewBetaUpdate(s)
        | APIResponse::NewStableUpdate(s)
        | APIResponse::NewUpdateHotfix(s) => Some(s.as_str()),
        _ => None,
    }
}

#[test]
fn hotfix_on_stable() {
    let r = compare(v(1, 2, 3), v(1, 2, 4), UpdateChannel::Stable, PRERELEASE_PATCH);
    assert!(matches!(r, APIResponse::NewUpdateHotfix(_)));
    assert_eq!(label(&r), Some("v1.2.4"));
}

#[test]
fn hotfix_on_beta_is_beta_update() {
    let r = compare(v(1, 2, 3), v(1, 2, 4), UpdateChannel::Beta, PRERELEASE_PATCH);
    assert!(matches!(r, APIResponse::NewBetaUpdate(_)));
    assert_eq!(label(&r), Some("v1.2.4"));
}

#[test]
fn beta_build_returns_to_stable() {
    let r = compare(v(1, 2, 99), v(1, 3, 0), UpdateChannel::Stable, PRERELEASE_PATCH);
    assert!(matches!(r, APIResponse::NewStableUpdate(_)));
    assert_eq!(label(&r), Some("v1.3.0"));
}

#[test]
fn prerelease_on_stable_takes_even_older_release() {
    let r = compare(v(3, 0, 99), v(1, 0, 0), UpdateChannel::Stable, PRERELEASE_PATCH);
    assert!(matches!(r, APIResponse::NewStableUpdate(_)));
    assert_eq!(label(&r), Some("v1.0.0"));
}

#[test]
fn newer_running_build_gets_no_update() {
    for ch in [UpdateChannel::Stable, UpdateChannel::Beta] {
        assert!(matches!(compare(v(2, 0, 0), v(1, 9, 9), ch, PRERELEASE_PATCH), APIResponse::NoUpdate));
    }
}

#[test]
fn same_version_beta_no_update() {
    assert!(matches!(compare(v(1, 0, 0), v(1, 0, 0), UpdateChannel::Beta, PRERELEASE_PATCH), APIResponse::NoUpdate));
    assert!(matches!(compare(v(4, 5, 6), v(4, 5, 6), UpdateChannel::Stable, PRERELEASE_PATCH), APIResponse::NoUpdate));
}

#[test]
fn major_bump_labels_by_channel() {
    let s = compare(v(1, 9, 9), v(2, 0, 0), UpdateChannel::Stable, PRERELEASE_PATCH);
    assert!(matches!(s, APIResponse::NewStableUpdate(_)));
    assert_eq!(label(&s), Some("v2.0.0"));
    let b = compare(v(1, 9, 9), v(2, 0, 0), UpdateChannel::Beta, PRERELEASE_PATCH);
    assert!(matches!(b, APIResponse::NewBetaUpdate(_)));
    assert_eq!(label(&b), Some("v2.0.0"));
}

#[test]
fn minor_bump_and_minor_downgrade() {
    let s = compare(v(1, 2, 9), v(1, 3, 0), UpdateChannel::Stable, PRERELEASE_PATCH);
    assert!(matches!(s, APIResponse::NewStableUpdate(_)));
    assert!(matches!(compare(v(1, 3, 0), v(1, 2, 9), UpdateChannel::Beta, PRERELEASE_PATCH), APIResponse::NoUpdate));
    assert!(matches!(compare(v(1, 3, 5), v(1, 3, 4), UpdateChannel::Stable, PRERELEASE_PATCH), APIResponse::NoUpdate));
}

#[test]
fn label_with_multi_digit_components() {
    let r = compare(v(0, 0, 1), v(10, 205, 0), UpdateChannel::Beta, PRERELEASE_PATCH);
    assert_eq!(label(&r), Some("v10.205.0"));
}

#[test]
fn parse_accepts_plain_and_prefixed() {
    assert_eq!(parse_version("1.2.3"), Some(v(1, 2, 3)));
    assert_eq!(parse_version("v10.0.99"), Some(v(10, 0, 99)));
    assert_eq!(parse_version("0.0.0"), Some(v(0, 0, 0)));
    assert_eq!(parse_version("2147483647.0.1"), Some(v(2147483647, 0, 1)));
}

#[test]
fn parse_rejects_malformed() {
    for s in ["", "1.2", "1.2.3.4", "1..3", "a.b.c", "1.2.x", "v", "1.2.3-beta", "2147483648.0.0", "vv1.2.3", ".1.2"] {
        assert_eq!(parse_version(s), None, "{}", s);
    }
}

#[test]
fn malformed_text_is_unknown() {
    assert!(matches!(compare_text("1.2", "1.2.4", UpdateChannel::Stable, PRERELEASE_PATCH), APIResponse::UnknownVersion));
    assert!(matches!(compare_text("1.2.3", "garbage", UpdateChannel::Beta, PRERELEASE_PATCH), APIResponse::UnknownVersion));
    let r = compare_text("1.2.3", "v1.2.4", UpdateChannel::Stable, PRERELEASE_PATCH);
    assert_eq!(label(&r), Some("v1.2.4"));
}

#[test]
fn stable_skips_prereleases() {
    let rs = vec![release("1.0.99"), release("1.0.5"), release("1.0.3")];
    assert_eq!(select_release(&rs, UpdateChannel::Stable, PRERELEASE_PATCH).unwrap(), 1);
}

#[test]
fn beta_takes_first() {
    let rs = vec![release("1.0.99"), release("1.0.5"), release("1.0.3")];
    assert_eq!(select_release(&rs, UpdateChannel::Beta, PRERELEASE_PATCH).unwrap(), 0);
    let odd = vec![release("not a version"), release("1.0.5")];
    assert_eq!(select_release(&odd, UpdateChannel::Beta, PRERELEASE_PATCH).unwrap(), 0);
}

#[test]
fn selection_errors() {
    let empty: Vec<Release> = vec![];
    assert!(matches!(select_release(&empty, UpdateChannel::Beta, PRERELEASE_PATCH), Err(UpdateError::NoMatchingRelease)));
    assert!(matches!(select_release(&empty, UpdateChannel::Stable, PRERELEASE_PATCH), Err(UpdateError::NoMatchingRelease)));
    let pre = vec![release("2.0.99"), release("1.9.100")];
    assert!(matches!(select_release(&pre, UpdateChannel::Stable, PRERELEASE_PATCH), Err(UpdateError::NoMatchingRelease)));
    let bad = vec![release("2.0.99"), release("two"), release("1.0.0")];
    assert!(matches!(select_release(&bad, UpdateChannel::Stable, PRERELEASE_PATCH), Err(UpdateError::InvalidVersion)));
}

#[test]
fn updater_new_keeps_fields() {
    let u = Updater::new(UpdateChannel::Beta, "owner", "project");
    assert_eq!(u.update_channel(), UpdateChannel::Beta);
    assert_eq!(u.repo_owner(), "owner");
    assert_eq!(u.repo_name(), "project");
    assert_eq!(u.prerelease_patch(), 99);
}

#[test]
fn updater_check_end_to_end() {
    let rs = vec![release("v1.3.99"), release("v1.2.4"), release("v1.2.3")];
    let stable = Updater::new(UpdateChannel::Stable, "o", "p");
    assert_eq!(stable.last_release(&rs).unwrap(), 1);
    let r = stable.check("1.2.3", &rs).unwrap();
    assert!(matches!(r, APIResponse::NewUpdateHotfix(_)));
    assert_eq!(label(&r), Some("v1.2.4"));
    let beta = Updater::new(UpdateChannel::Beta, "o", "p");
    let r = beta.check("1.2.3", &rs).unwrap();
    assert!(matches!(r, APIResponse::NewBetaUpdate(_)));
    assert_eq!(label(&r), Some("v1.3.99"));
    let none: Vec<Release> = vec![];
    assert!(matches!(beta.check("1.2.3", &none), Err(UpdateError::NoMatchingRelease)));
}

#[test]
fn channel_names() {
    assert_eq!(UpdateChannel::Stable.to_string(), "Stable");
    assert_eq!(UpdateChannel::Beta.to_string(), "Beta");
    assert_eq!(UpdateChannel::try_from("Stable").unwrap(), UpdateChannel::Stable);
    assert_eq!(UpdateChannel::try_from("Beta").unwrap(), UpdateChannel::Beta);
    match UpdateChannel::try_from("beta") {
        Err(UpdateError::InvalidChannel(s)) => assert_eq!(s, "beta"),
        other => panic!("unexpected {:?}", other),
    }
}

#[test]
fn configurable_prerelease_mark() {
    // with a mark of 50, patch 60 is a pre-release
    let rs = vec![release("2.0.60"), release("2.0.10")];
    let u = Updater::new(UpdateChannel::Stable, "o", "p").with_prerelease_patch(50);
    assert_eq!(u.prerelease_patch(), 50);
    assert_eq!(u.update_channel(), UpdateChannel::Stable);
    assert_eq!(u.last_release(&rs).unwrap(), 1);
    let r = compare(v(1, 0, 60), v(0, 1, 0), UpdateChannel::Stable, 50);
    assert!(matches!(r, APIResponse::NewStableUpdate(_)));
    assert!(matches!(compare(v(1, 0, 60), v(0, 1, 0), UpdateChannel::Stable, 99), APIResponse::NoUpdate));
}

#[test]
fn asset_for_this_platform() {
    let target = self_update::get_target();
    let rel = Release {
        version: "1.0.0".to_string(),
        assets: vec![
            ReleaseAsset { name: "tool-some-other-platform.zip".to_string(), download_url: "u1".to_string() },
            ReleaseAsset { name: format!("tool-{}.zip", target), download_url: "u2".to_string() },
        ],
    };
    let u = Updater::new(UpdateChannel::Stable, "o", "p");
    let a = u.asset_for_host(&rel).unwrap();
    assert_eq!(a.download_url, "u2");
    let none = Release { version: "1.0.0".to_string(), assets: vec![] };
    assert!(matches!(u.asset_for_host(&none), Err(UpdateError::UnsupportedPlatform)));
}
