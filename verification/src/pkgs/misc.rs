//! The general command-line tools of the catalog.

use vstd::prelude::*;
use crate::config::Config;
use crate::installers::{AssetHook, CargoInstaller, GithubReleaseInstaller, GoInstaller, NativeInstaller};
use crate::pkg::{Package, PkgInfo, PkgInfoV};
use crate::platform::Platform;
use crate::pkgs::{musl_gnu_pattern_spec, package_names, pick_musl_gnu};

verus! {

/// The names of the miscellaneous tools for this platform, in catalog
/// order.
pub open spec fn misc_names(pf: Platform) -> Seq<Seq<char>> {
    seq![
        "nushell"@,
        "bat"@,
        "fd"@,
        "just"@,
        "exa"@,
        "lazygit"@,
        "goimports"@,
    ].add(
        match direnv_pattern(pf) {
            Some(_) => seq!["direnv"@],
            None => Seq::empty(),
        },
    ).add(
        match broot_pattern(pf) {
            Some(_) => seq!["broot"@],
            None => Seq::empty(),
        },
    )
}

/// `p` is one of the miscellaneous tools, exactly as its builder states
/// it.
pub open spec fn misc_member_ok(p: Package, pf: Platform) -> bool {
    ||| is_nushell(p, pf)
    ||| is_bat(p, pf)
    ||| is_fd(p, pf)
    ||| is_just(p, pf)
    ||| is_exa(p, pf)
    ||| is_lazygit(p)
    ||| is_goimports(p)
    ||| is_direnv(p, pf)
    ||| is_broot(p, pf)
}

/// The miscellaneous tools, in catalog order; the two with only
/// platform-bound assets appear only where the platform has one. Every
/// element is the package its builder describes.
pub fn packages(_cfg: &Config, pf: &Platform) -> (r: Vec<Package>)
    ensures
        package_names(r@) == misc_names(*pf),
        forall|j: int| 0 <= j < r@.len() ==> misc_member_ok(#[trigger] r@[j], *pf),
{
    let mut r: Vec<Package> = Vec::new();
    r.push(nushell(pf));
    r.push(bat(pf));
    r.push(fd(pf));
    r.push(just(pf));
    r.push(exa(pf));
    r.push(lazygit());
    r.push(goimports());
    proof {
        assert(forall|j: int| 0 <= j < r@.len() ==> misc_member_ok(#[trigger] r@[j], *pf));
    }
    match direnv(pf) {
        Some(p) => {
            r.push(p);
        },
        None => {},
    }
    proof {
        assert(forall|j: int| 0 <= j < r@.len() ==> misc_member_ok(#[trigger] r@[j], *pf));
    }
    match broot(pf) {
        Some(p) => {
            r.push(p);
        },
        None => {},
    }
    proof {
        assert(forall|j: int| 0 <= j < r@.len() ==> misc_member_ok(#[trigger] r@[j], *pf));
        assert(package_names(r@) =~= misc_names(*pf));
    }
    r
}

/// The asset pattern of nushell for this platform.
pub open spec fn nushell_pattern(pf: Platform) -> Option<Seq<char>> {
    musl_gnu_pattern_spec(
        pf,
        "nu-.*-x86_64-linux-musl-full.tar.gz"@,
        "nu-.*-x86_64-linux-gnu-full.tar.gz"@,
    )
}

/// `p` is exactly the nushell package for this platform.
pub open spec fn is_nushell(p: Package, pf: Platform) -> bool {
    &&& p.info_spec() == (PkgInfoV {
        repo: "https://github.com/nushell/nushell"@,
        name: "nushell"@,
        mod_name: "nu"@,
        bin_name: "nu"@,
    })
    &&& match nushell_pattern(pf) {
        Some(pat) => p.asset_installer_spec() matches Some(a) && a.pattern@ == pat && a.hook
            == AssetHook::ArchiveDirBin,
        None => p.asset_installer_spec() is None,
    }
    &&& p.native_installer_spec() matches Some(n) && n is Cargo
}

/// Nushell: a release archive where available, cargo otherwise.
pub fn nushell(pf: &Platform) -> (p: Package)
    ensures
        is_nushell(p, *pf),
{
    let info = PkgInfo::new("https://github.com/nushell/nushell", "nushell", "nu", "nu");
    let asset = match pick_musl_gnu(
        pf,
        "nu-.*-x86_64-linux-musl-full.tar.gz",
        "nu-.*-x86_64-linux-gnu-full.tar.gz",
    ) {
        Some(pat) => Some(GithubReleaseInstaller::new(pat, AssetHook::ArchiveDirBin)),
        None => None,
    };
    Package::new(info, asset, Some(NativeInstaller::Cargo(CargoInstaller {  })))
}

/// The asset pattern of bat for this platform.
pub open spec fn bat_pattern(pf: Platform) -> Option<Seq<char>> {
    musl_gnu_pattern_spec(
        pf,
        "bat-.*-x86_64-unknown-linux-musl.tar.gz"@,
        "bat-.*-x86_64-unknown-linux-gnu.tar.gz"@,
    )
}

/// `p` is exactly the bat package for this platform.
pub open spec fn is_bat(p: Package, pf: Platform) -> bool {
    &&& p.info_spec() == (PkgInfoV {
        repo: "https://github.com/sharkdp/bat"@,
        name: "bat"@,
        mod_name: "bat"@,
        bin_name: "bat"@,
    })
    &&& match bat_pattern(pf) {
        Some(pat) => p.asset_installer_spec() matches Some(a) && a.pattern@ == pat && a.hook
            == AssetHook::ArchiveDirBin,
        None => p.asset_installer_spec() is None,
    }
    &&& p.native_installer_spec() matches Some(n) && n is Cargo
}

/// Bat: a release archive where available, cargo otherwise.
pub fn bat(pf: &Platform) -> (p: Package)
    ensures
        is_bat(p, *pf),
{
    let info = PkgInfo::named("https://github.com/sharkdp/bat", "bat");
    let asset = match pick_musl_gnu(
        pf,
        "bat-.*-x86_64-unknown-linux-musl.tar.gz",
        "bat-.*-x86_64-unknown-linux-gnu.tar.gz",
    ) {
        Some(pat) => Some(GithubReleaseInstaller::new(pat, AssetHook::ArchiveDirBin)),
        None => None,
    };
    Package::new(info, asset, Some(NativeInstaller::Cargo(CargoInstaller {  })))
}

/// The asset pattern of fd for this platform.
pub open spec fn fd_pattern(pf: Platform) -> Option<Seq<char>> {
    musl_gnu_pattern_spec(
        pf,
        "fd-.*-x86_64-unknown-linux-musl.tar.gz"@,
        "fd-.*-x86_64-unknown-linux-gnu.tar.gz"@,
    )
}

/// `p` is exactly the fd package for this platform.
pub open spec fn is_fd(p: Package, pf: Platform) -> bool {
    &&& p.info_spec() == (PkgInfoV {
        repo: "https://github.com/sharkdp/fd"@,
        name: "fd"@,
        mod_name: "fd-find"@,
        bin_name: "fd"@,
    })
    &&& match fd_pattern(pf) {
        Some(pat) => p.asset_installer_spec() matches Some(a) && a.pattern@ == pat && a.hook
            == AssetHook::ArchiveDirBin,
        None => p.asset_installer_spec() is None,
    }
    &&& p.native_installer_spec() matches Some(n) && n is Cargo
}

/// Fd: a release archive where available, cargo (as fd-find) otherwise.
pub fn fd(pf: &Platform) -> (p: Package)
    ensures
        is_fd(p, *pf),
{
    let info = PkgInfo::with_module("https://github.com/sharkdp/fd", "fd", "fd-find");
    let asset = match pick_musl_gnu(
        pf,
        "fd-.*-x86_64-unknown-linux-musl.tar.gz",
        "fd-.*-x86_64-unknown-linux-gnu.tar.gz",
    ) {
        Some(pat) => Some(GithubReleaseInstaller::new(pat, AssetHook::ArchiveDirBin)),
        None => None,
    };
    Package::new(info, asset, Some(NativeInstaller::Cargo(CargoInstaller {  })))
}

/// The asset pattern of just for this platform: the static musl build on
/// any x86-64 Linux.
pub open spec fn just_pattern(pf: Platform) -> Option<Seq<char>> {
    if pf.os is Linux && pf.arch is X86_64 {
        Some("just-.*-x86_64-unknown-linux-musl.tar.gz"@)
    } else {
        None
    }
}

/// `p` is exactly the just package for this platform.
pub open spec fn is_just(p: Package, pf: Platform) -> bool {
    &&& p.info_spec() == (PkgInfoV {
        repo: "https://github.com/casey/just"@,
        name: "just"@,
        mod_name: "just"@,
        bin_name: "just"@,
    })
    &&& match just_pattern(pf) {
        Some(pat) => p.asset_installer_spec() matches Some(a) && a.pattern@ == pat && a.hook
            == AssetHook::PlainBin,
        None => p.asset_installer_spec() is None,
    }
    &&& p.native_installer_spec() matches Some(n) && n is Cargo
}

/// Just: a release archive where available, cargo otherwise.
pub fn just(pf: &Platform) -> (p: Package)
    ensures
        is_just(p, *pf),
{
    let info = PkgInfo::named("https://github.com/casey/just", "just");
    let asset = match (pf.os, pf.arch) {
        (crate::platform::Os::Linux, crate::platform::Arch::X86_64) => Some(
            GithubReleaseInstaller::new(
                "just-.*-x86_64-unknown-linux-musl.tar.gz".to_owned(),
                AssetHook::PlainBin,
            ),
        ),
        _ => None,
    };
    Package::new(info, asset, Some(NativeInstaller::Cargo(CargoInstaller {  })))
}

/// The asset pattern of exa for this platform: the musl build under musl,
/// the plain build on other x86-64 Linux systems.
pub open spec fn exa_pattern(pf: Platform) -> Option<Seq<char>> {
    if pf.os is Linux && pf.arch is X86_64 && pf.libc is Musl {
        Some("exa-linux-x86_64-musl-.*.zip"@)
    } else if pf.os is Linux && pf.arch is X86_64 {
        Some("exa-linux-x86_64-.*.zip"@)
    } else {
        None
    }
}

/// `p` is exactly the exa package for this platform.
pub open spec fn is_exa(p: Package, pf: Platform) -> bool {
    &&& p.info_spec() == (PkgInfoV {
        repo: "https://github.com/ogham/exa"@,
        name: "exa"@,
        mod_name: "exa"@,
        bin_name: "exa"@,
    })
    &&& match exa_pattern(pf) {
        Some(pat) => p.asset_installer_spec() matches Some(a) && a.pattern@ == pat && a.hook
            == AssetHook::BinSubdir,
        None => p.asset_installer_spec() is None,
    }
    &&& p.native_installer_spec() matches Some(n) && n is Cargo
}

/// Exa: a release archive where available, cargo otherwise.
pub fn exa(pf: &Platform) -> (p: Package)
    ensures
        is_exa(p, *pf),
{
    let info = PkgInfo::named("https://github.com/ogham/exa", "exa");
    let asset = match (pf.os, pf.arch, pf.libc) {
        (crate::platform::Os::Linux, crate::platform::Arch::X86_64, crate::platform::Libc::Musl) => Some(
            GithubReleaseInstaller::new(
                "exa-linux-x86_64-musl-.*.zip".to_owned(),
                AssetHook::BinSubdir,
            ),
        ),
        (crate::platform::Os::Linux, crate::platform::Arch::X86_64, _) => Some(
            GithubReleaseInstaller::new("exa-linux-x86_64-.*.zip".to_owned(), AssetHook::BinSubdir),
        ),
        _ => None,
    };
    Package::new(info, asset, Some(NativeInstaller::Cargo(CargoInstaller {  })))
}

/// The asset pattern of direnv for this platform.
pub open spec fn direnv_pattern(pf: Platform) -> Option<Seq<char>> {
    if pf.os is Linux && pf.arch is X86_64 {
        Some("direnv.linux-amd64"@)
    } else if pf.os is Linux && pf.arch is Arm {
        Some("direnv.linux-arm64"@)
    } else {
        None
    }
}

/// `p` is exactly the direnv package for this platform.
pub open spec fn is_direnv(p: Package, pf: Platform) -> bool {
    &&& p.info_spec() == (PkgInfoV {
        repo: "https://github.com/direnv/direnv"@,
        name: "direnv"@,
        mod_name: "direnv"@,
        bin_name: "direnv"@,
    })
    &&& p.asset_installer_spec() matches Some(a) && direnv_pattern(pf) == Some(a.pattern@)
        && a.hook == AssetHook::MoveToBin
    &&& p.native_installer_spec() is None
}

/// Direnv: the released binary itself, moved into place; no other
/// installer.
pub fn direnv(pf: &Platform) -> (p: Option<Package>)
    ensures
        match p {
            Some(pkg) => is_direnv(pkg, *pf),
            None => direnv_pattern(*pf) is None,
        },
{
    let pattern: Option<&str> = match (pf.os, pf.arch) {
        (crate::platform::Os::Linux, crate::platform::Arch::X86_64) => Some("direnv.linux-amd64"),
        (crate::platform::Os::Linux, crate::platform::Arch::Arm) => Some("direnv.linux-arm64"),
        _ => None,
    };
    match pattern {
        Some(pat) => {
            let info = PkgInfo::named("https://github.com/direnv/direnv", "direnv");
            let installer = GithubReleaseInstaller::new(pat.to_owned(), AssetHook::MoveToBin);
            Some(Package::new(info, Some(installer), None))
        },
        None => None,
    }
}

/// The asset pattern of broot for this platform.
pub open spec fn broot_pattern(pf: Platform) -> Option<Seq<char>> {
    if pf.os is Linux && pf.arch is X86_64 {
        Some("broot-x86_64-unknown-linux-musl-.*.zip"@)
    } else if pf.os is Linux && pf.arch is Arm {
        Some("broot-aarch64-unknown-linux-musl-.*.zip"@)
    } else {
        None
    }
}

/// `p` is exactly the broot package for this platform.
pub open spec fn is_broot(p: Package, pf: Platform) -> bool {
    &&& p.info_spec() == (PkgInfoV {
        repo: "https://github.com/Canop/broot"@,
        name: "broot"@,
        mod_name: "broot"@,
        bin_name: "broot"@,
    })
    &&& p.asset_installer_spec() matches Some(a) && broot_pattern(pf) == Some(a.pattern@)
        && a.hook == AssetHook::PlainBin
    &&& p.native_installer_spec() is None
}

/// Broot: a release archive; no other installer.
pub fn broot(pf: &Platform) -> (p: Option<Package>)
    ensures
        match p {
            Some(pkg) => is_broot(pkg, *pf),
            None => broot_pattern(*pf) is None,
        },
{
    let pattern: Option<&str> = match (pf.os, pf.arch) {
        (crate::platform::Os::Linux, crate::platform::Arch::X86_64) => Some(
            "broot-x86_64-unknown-linux-musl-.*.zip",
        ),
        (crate::platform::Os::Linux, crate::platform::Arch::Arm) => Some(
            "broot-aarch64-unknown-linux-musl-.*.zip",
        ),
        _ => None,
    };
    match pattern {
        Some(pat) => {
            let info = PkgInfo::named("https://github.com/Canop/broot", "broot");
            let installer = GithubReleaseInstaller::new(pat.to_owned(), AssetHook::PlainBin);
            Some(Package::new(info, Some(installer), None))
        },
        None => None,
    }
}

/// `p` is exactly the lazygit package.
pub open spec fn is_lazygit(p: Package) -> bool {
    &&& p.info_spec() == (PkgInfoV {
        repo: "https://github.com/jesseduffield/lazygit"@,
        name: "lazygit"@,
        mod_name: "github.com/jesseduffield/lazygit"@,
        bin_name: "lazygit"@,
    })
    &&& p.asset_installer_spec() is None
    &&& p.native_installer_spec() matches Some(n) && n is Go
}

/// Lazygit, installed through the Go toolchain.
pub fn lazygit() -> (p: Package)
    ensures
        is_lazygit(p),
{
    let info = PkgInfo::new(
        "https://github.com/jesseduffield/lazygit",
        "lazygit",
        "github.com/jesseduffield/lazygit",
        "lazygit",
    );
    Package::new(info, None, Some(NativeInstaller::Go(GoInstaller {  })))
}

/// `p` is exactly the goimports package.
pub open spec fn is_goimports(p: Package) -> bool {
    &&& p.info_spec() == (PkgInfoV {
        repo: "https://github.com/golang/tools"@,
        name: "goimports"@,
        mod_name: "golang.org/x/tools/cmd/goimports"@,
        bin_name: "goimports"@,
    })
    &&& p.asset_installer_spec() is None
    &&& p.native_installer_spec() matches Some(n) && n is Go
}

/// Goimports, installed through the Go toolchain.
pub fn goimports() -> (p: Package)
    ensures
        is_goimports(p),
{
    let info = PkgInfo::new(
        "https://github.com/golang/tools",
        "goimports",
        "golang.org/x/tools/cmd/goimports",
        "goimports",
    );
    Package::new(info, None, Some(NativeInstaller::Go(GoInstaller {  })))
}

} // verus!
