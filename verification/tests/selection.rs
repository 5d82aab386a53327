use devtoolinstaller::error::Error;
use devtoolinstaller::release::{select_asset, Asset, Release};
use devtoolinstaller::tag::normalize_tag;

fn release_with(names: &[&str]) -> Release {
    let assets = names
        .iter()
        .map(|n| Asset { name: String::from(*n), url: format!("https://example.invalid/{}", n) })
        .collect();
    Release {
        name: String::from("r"),
        tag: String::from("v1.0.0"),
        prerelease: false,
        assets,
    }
}

#[test]
fn test_select_first_match_in_list_order() {
    let rel = release_with(&["tool-macos.zip", "tool-linux.zip", "tool-linux-musl.zip"]);
    let a = select_asset(&rel, "linux").expect("match");
    assert_eq!(a.name, "tool-linux.zip");
}

#[test]
fn test_select_is_deterministic() {
    let rel = release_with(&["a.tar.gz", "b-linux.tar.gz", "c-linux.tar.gz"]);
    let first = select_asset(&rel, "linux.*tar.gz").expect("match");
    for _ in 0..3 {
        let again = select_asset(&rel, "linux.*tar.gz").expect("match");
        assert_eq!(first.name, again.name);
        assert_eq!(first.url, again.url);
    }
}

#[test]
fn test_select_anchored_pattern_really_matches() {
    // would fail if matching ignored the pattern or the asset names
    let rel = release_with(&["exa-linux-x86_64.zip", "exa-macos-x86_64.zip"]);
    let a = select_asset(&rel, "^exa-macos.*zip$").expect("match");
    assert_eq!(a.name, "exa-macos-x86_64.zip");
    assert!(select_asset(&rel, "^nothing-here$").is_err());
}

#[test]
fn test_select_no_match_is_missing_system_asset() {
    let rel = release_with(&["tool-windows.zip"]);
    match select_asset(&rel, "linux") {
        Err(Error::MissingSystemAsset) => {}
        _ => panic!("expected a missing system asset"),
    }
}

#[test]
fn test_select_invalid_pattern_is_external_error() {
    let rel = release_with(&["tool-linux.zip"]);
    match select_asset(&rel, "(unclosed") {
        Err(Error::External(msg)) => assert!(msg.starts_with("invalid regex: ")),
        _ => panic!("expected an external error"),
    }
}

#[test]
fn test_select_empty_asset_list() {
    let rel = release_with(&[]);
    match select_asset(&rel, "anything") {
        Err(Error::MissingSystemAsset) => {}
        _ => panic!("expected a missing system asset"),
    }
}

#[test]
fn test_normalize_tag_extracts_semantic_token() {
    assert_eq!(normalize_tag("release v1.2.3 final"), "v1.2.3");
    assert_eq!(normalize_tag("v0.48.0"), "v0.48.0");
    assert_eq!(normalize_tag("gopls/v0.14.2"), "v0.14.2");
}

#[test]
fn test_normalize_tag_patch_up_to_three_digits() {
    assert_eq!(normalize_tag("v1.2.345"), "v1.2.345");
    assert_eq!(normalize_tag("v1.2.3456"), "v1.2.345");
}

#[test]
fn test_normalize_tag_dates_and_opaque_pass_through() {
    assert_eq!(normalize_tag("2023-01-22"), "2023-01-22");
    assert_eq!(normalize_tag("nightly"), "nightly");
    assert_eq!(normalize_tag("1.2.3"), "1.2.3");
}
