use devtoolinstaller::config::Config;
use devtoolinstaller::handler::{list_rows, record_install, Handler};
use devtoolinstaller::manifest::Manifest;
use devtoolinstaller::pkgs::{get_asset_regex, get_packages};
use devtoolinstaller::platform::{Arch, Libc, Os, Platform};
use devtoolinstaller::provider::{latest_release_url, release_query, tag_release_url};
use devtoolinstaller::version::Version;

fn linux_gnu() -> Platform {
    Platform::new(Os::Linux, Arch::X86_64, Libc::Gnu)
}

fn other_platform() -> Platform {
    Platform::new(Os::Macos, Arch::Aarch64, Libc::OtherLibc)
}

#[test]
fn test_get_packages() {
    let cfg = Config::default();
    let res = get_packages(&cfg, &linux_gnu());
    assert!(res.is_ok());
}

#[test]
fn test_registry_holds_the_catalog() {
    let cfg = Config::default();
    let registry = get_packages(&cfg, &linux_gnu()).expect("catalog");
    let gopls = registry.get("gopls").expect("gopls");
    assert_eq!(gopls.name(), "gopls");
    assert_eq!(gopls.repo(), "https://github.com/golang/tools");
    assert!(registry.get("lazygit").is_some());
    assert!(registry.get("pylsp").is_some());
    assert!(registry.get("bat").is_some());
    assert!(registry.get("actionlint").is_some());
    assert!(registry.get("vscode-langservers-extracted").is_some());
    assert!(registry.get("rust-analyzer").is_some());
    assert!(registry.get("no-such-tool").is_none());
}

#[test]
fn test_platform_gates_asset_only_packages() {
    let cfg = Config::default();
    let linux = get_packages(&cfg, &linux_gnu()).expect("catalog");
    assert!(linux.get("direnv").is_some());
    assert!(linux.get("broot").is_some());
    let other = get_packages(&cfg, &other_platform()).expect("catalog");
    assert!(other.get("direnv").is_none());
    assert!(other.get("rust-analyzer").is_none());
    // packages with a native fallback stay available everywhere
    assert!(other.get("bat").is_some());
    assert!(other.get("gopls").is_some());
}

#[test]
fn test_registry_elements_carry_their_installers() {
    let cfg = Config::default();
    let musl = Platform::new(Os::Linux, Arch::X86_64, Libc::Musl);
    let registry = get_packages(&cfg, &musl).expect("catalog");

    let bat = registry.get("bat").expect("bat");
    let asset = bat.asset_installer().expect("asset installer");
    assert_eq!(asset.pattern, "bat-.*-x86_64-unknown-linux-musl.tar.gz");
    assert!(bat.native_installer().is_some());

    let fd = registry.get("fd").expect("fd");
    assert_eq!(fd.info().mod_name, "fd-find");

    let gopls = registry.get("gopls").expect("gopls");
    assert!(gopls.asset_installer().is_none());
    assert_eq!(gopls.info().mod_name, "golang.org/x/tools/gopls");
}

#[test]
fn test_get_asset_regex_by_platform() {
    let re = get_asset_regex("rust-analyzer", &linux_gnu()).expect("pattern");
    assert_eq!(re, "rust-analyzer-x86_64-unknown-linux-gnu.gz");
    let musl = Platform::new(Os::Linux, Arch::X86_64, Libc::Musl);
    let re = get_asset_regex("rust-analyzer", &musl).expect("pattern");
    assert_eq!(re, "rust-analyzer-x86_64-unknown-linux-musl.gz");
    let re = get_asset_regex("elixir-ls", &other_platform()).expect("pattern");
    assert_eq!(re, "^elixir-ls-v.*\\.zip$");
}

#[test]
fn test_get_asset_regex_errors() {
    match get_asset_regex("no-such-tool", &linux_gnu()) {
        Err(e) => assert_eq!(e.message(), "unknown package: no-such-tool"),
        Ok(_) => panic!("expected an error"),
    }
    match get_asset_regex("direnv", &other_platform()) {
        Err(e) => assert_eq!(e.message(), "unable to determine platform for package: direnv"),
        Ok(_) => panic!("expected an error"),
    }
}

#[test]
fn test_handler_paths() {
    let h = Handler::new(String::from("/home/me/.devtoolinstaller"));
    assert_eq!(h.config_filepath, "/home/me/.devtoolinstaller/config.toml");
    assert_eq!(h.bin_dir, "/home/me/.devtoolinstaller/bin");
    assert_eq!(h.pkg_dir, "/home/me/.devtoolinstaller/pkg");
    assert_eq!(h.manifest_path, "/home/me/.devtoolinstaller/packages.json");
    assert_eq!(h.dirs.root_dir, "/home/me/.devtoolinstaller");
}

#[test]
fn test_list_rows_installed_first() {
    let cfg = Config::default();
    let registry = get_packages(&cfg, &linux_gnu()).expect("catalog");
    let mut manifest = Manifest::default();
    record_install(&mut manifest, "lazygit", Version::Sem(0, 40, 2));

    let only_installed = list_rows(&registry, &manifest, false);
    assert_eq!(only_installed.len(), 1);
    assert_eq!(only_installed[0].name, "lazygit");
    assert!(only_installed[0].installed);
    assert!(only_installed[0].version.as_ref().expect("version").same(&Version::Sem(0, 40, 2)));

    let all = list_rows(&registry, &manifest, true);
    assert!(all.len() > 1);
    assert_eq!(all[0].name, "lazygit");
    assert!(all[0].installed);
    for row in all.iter().skip(1) {
        assert!(!row.installed);
        assert!(row.version.is_none());
    }
}

#[test]
fn test_release_queries_and_urls() {
    let q = release_query("https://github.com/sharkdp/bat", &Some(Version::Sem(0, 24, 0)));
    assert_eq!(q.repo, "https://github.com/sharkdp/bat");
    assert_eq!(q.tag.as_deref(), Some("v0.24.0"));
    let q = release_query("https://github.com/sharkdp/bat", &None);
    assert!(q.tag.is_none());

    let url = latest_release_url("https://api.github.com", "https://github.com/sharkdp/bat");
    assert_eq!(url, "https://api.github.com/repos/sharkdp/bat/releases/latest");
    let url = tag_release_url("https://api.github.com", "sharkdp/bat", "v0.24.0");
    assert_eq!(url, "https://api.github.com/repos/sharkdp/bat/releases/tags/v0.24.0");
}
