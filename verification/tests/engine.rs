use devtoolinstaller::config::Config;
use devtoolinstaller::error::Error;
use devtoolinstaller::handler::{
    check_entry, install_decision, record_install, sort_check_rows, update_decision,
    uninstall_decision, CheckRow, CheckStatus, InstallDecision, TargetDecision,
};
use devtoolinstaller::installers::{AssetHook, CargoInstaller, GithubReleaseInstaller, NativeInstaller};
use devtoolinstaller::manifest::{Entry, Manifest};
use devtoolinstaller::pkg::{version_from_release, AttemptKind, Package, PkgInfo, StepDecision};
use devtoolinstaller::pkgs::get_packages;
use devtoolinstaller::platform::{Arch, Libc, Os, Platform};
use devtoolinstaller::release::Release;
use devtoolinstaller::version::Version;

fn linux_gnu() -> Platform {
    Platform::new(Os::Linux, Arch::X86_64, Libc::Gnu)
}

fn two_installer_package() -> Package {
    let info = PkgInfo::named("https://github.com/example/tool", "tool");
    Package::new(
        info,
        Some(GithubReleaseInstaller::new(String::from("tool-linux"), AssetHook::PlainBin)),
        Some(NativeInstaller::Cargo(CargoInstaller {})),
    )
}

fn asset_only_package() -> Package {
    let info = PkgInfo::named("https://github.com/example/tool", "tool");
    Package::new(
        info,
        Some(GithubReleaseInstaller::new(String::from("tool-linux"), AssetHook::PlainBin)),
        None,
    )
}

fn release_tagged(tag: &str) -> Release {
    Release { name: String::from("r"), tag: String::from(tag), prerelease: false, assets: Vec::new() }
}

#[test]
fn test_missing_asset_falls_through_and_native_success_records_version() {
    let pkg = two_installer_package();
    assert!(matches!(pkg.first_attempt(), Some(AttemptKind::Asset)));
    let step = pkg.next_step(AttemptKind::Asset, Some(&Error::MissingSystemAsset));
    assert!(matches!(step, StepDecision::Continue(AttemptKind::Native)));
    let step = pkg.next_step(AttemptKind::Native, None);
    assert!(matches!(step, StepDecision::Installed));

    // on success the manifest records the version from the release tag
    let release = Some(release_tagged("v1.2.3"));
    let version = version_from_release(&release);
    let mut manifest = Manifest::default();
    record_install(&mut manifest, "tool", version);
    let entry = manifest.get("tool").expect("entry");
    assert!(entry.version.same(&Version::Sem(1, 2, 3)));
}

#[test]
fn test_no_installer_can_handle_the_system() {
    // asset installer alone, reporting no asset for the platform
    let pkg = asset_only_package();
    let step = pkg.next_step(AttemptKind::Asset, Some(&Error::MissingSystemAsset));
    assert!(matches!(step, StepDecision::NoMethod));

    // both configured, both failing non-fatally
    let pkg = two_installer_package();
    let step = pkg.next_step(AttemptKind::Asset, Some(&Error::MissingSystemAsset));
    assert!(matches!(step, StepDecision::Continue(AttemptKind::Native)));
    let step = pkg.next_step(AttemptKind::Native, Some(&Error::MissingProg(String::from("cargo"))));
    assert!(matches!(step, StepDecision::NoMethod));

    // nothing recorded anywhere along the way
    let manifest = Manifest::default();
    assert_eq!(manifest.installed_count(), 0);
}

#[test]
fn test_fatal_errors_abort_immediately() {
    let pkg = two_installer_package();
    let step = pkg.next_step(
        AttemptKind::Asset,
        Some(&Error::External(String::from("connection reset"))),
    );
    match step {
        StepDecision::Abort(Error::External(msg)) => assert_eq!(msg, "connection reset"),
        _ => panic!("expected an abort"),
    }
    let step = pkg.next_step(AttemptKind::Native, Some(&Error::MissingRelease));
    assert!(matches!(step, StepDecision::Abort(Error::MissingRelease)));
}

#[test]
fn test_update_of_non_installed_package_is_a_no_op_warning() {
    let cfg = Config::default();
    let registry = get_packages(&cfg, &linux_gnu()).expect("catalog");
    let manifest = Manifest::default();
    let d = update_decision(&manifest, &registry, "gopls");
    assert!(matches!(d, TargetDecision::NotInstalled));
    // nothing touched the manifest
    assert_eq!(manifest.installed_count(), 0);
}

#[test]
fn test_update_of_unknown_package_is_an_error() {
    let cfg = Config::default();
    let registry = get_packages(&cfg, &linux_gnu()).expect("catalog");
    let manifest = Manifest::default();
    assert!(matches!(update_decision(&manifest, &registry, "no-such-tool"), TargetDecision::UnknownPackage));
    assert!(matches!(uninstall_decision(&manifest, &registry, "no-such-tool"), TargetDecision::UnknownPackage));
}

#[test]
fn test_install_decisions() {
    let cfg = Config::default();
    let registry = get_packages(&cfg, &linux_gnu()).expect("catalog");
    let mut manifest = Manifest::default();
    assert!(matches!(install_decision(&manifest, &registry, "gopls"), InstallDecision::Proceed));
    assert!(matches!(
        install_decision(&manifest, &registry, "no-such-tool"),
        InstallDecision::UnknownPackage
    ));
    record_install(&mut manifest, "gopls", Version::Sem(0, 14, 2));
    assert!(matches!(
        install_decision(&manifest, &registry, "gopls"),
        InstallDecision::AlreadyInstalled
    ));
}

#[test]
fn test_version_from_release() {
    let v = version_from_release(&Some(release_tagged("v0.48.0")));
    assert!(v.same(&Version::Sem(0, 48, 0)));
    let v = version_from_release(&Some(release_tagged("2023-01-22")));
    assert!(v.same(&Version::Date(2023, 1, 22)));
    let v = version_from_release(&None);
    assert!(v.same(&Version::Unknown(String::from("unknown"))));
}

#[test]
fn test_check_entry_classification() {
    let entry = Entry::new(String::from("tool"), Version::Sem(1, 2, 3));
    let fetched: Result<Option<Release>, String> = Ok(Some(release_tagged("v1.2.3")));
    assert!(matches!(check_entry(&entry, &fetched), CheckStatus::UpToDate));
    let fetched: Result<Option<Release>, String> = Ok(Some(release_tagged("v1.3.0")));
    match check_entry(&entry, &fetched) {
        CheckStatus::Outdated { latest } => assert_eq!(latest, "v1.3.0"),
        _ => panic!("expected outdated"),
    }
    let fetched: Result<Option<Release>, String> = Ok(None);
    assert!(matches!(check_entry(&entry, &fetched), CheckStatus::NoRelease));
    let fetched: Result<Option<Release>, String> = Err(String::from("timeout"));
    match check_entry(&entry, &fetched) {
        CheckStatus::FetchError(msg) => assert_eq!(msg, "timeout"),
        _ => panic!("expected a fetch error"),
    }
}

#[test]
fn test_sort_check_rows_is_a_stable_partition() {
    let rows = vec![
        CheckRow { up_to_date: true, line: String::from("a") },
        CheckRow { up_to_date: false, line: String::from("b") },
        CheckRow { up_to_date: true, line: String::from("c") },
        CheckRow { up_to_date: false, line: String::from("d") },
    ];
    let sorted = sort_check_rows(rows);
    let lines: Vec<&str> = sorted.iter().map(|r| r.line.as_str()).collect();
    assert_eq!(lines, ["b", "d", "a", "c"]);
    assert!(!sorted[0].up_to_date && !sorted[1].up_to_date);
    assert!(sorted[2].up_to_date && sorted[3].up_to_date);
}

#[test]
fn test_error_messages() {
    assert_eq!(
        Error::Install { package: String::from("x"), reason: String::from("boom") }.message(),
        "error installing x: boom"
    );
    assert_eq!(Error::MissingProg(String::from("npm")).message(), "missing program: npm");
    assert_eq!(Error::External(String::from("io: oops")).message(), "io: oops");
    assert_eq!(Error::MissingSystemAsset.message(), "missing release asset for your system");
    assert_eq!(Error::MissingRelease.message(), "no release found");
}
