//! The language servers of the catalog.

use vstd::prelude::*;
use crate::config::Config;
use crate::installers::{AssetHook, GithubReleaseInstaller, NativeInstaller, NpmHook, NpmInstaller, PIP, GoInstaller};
use crate::pkg::{Package, PkgInfo, PkgInfoV};
use crate::platform::Platform;
use crate::pkgs::{musl_gnu_pattern_spec, package_names, pick_musl_gnu};

verus! {

/// The names of the language-server packages for this platform, in
/// catalog order.
pub open spec fn langservers_names(pf: Platform) -> Seq<Seq<char>> {
    seq![
        "gopls"@,
        "elixir-ls"@,
        "vscode-langservers-extracted"@,
        "typescript-language-server"@,
        "pyright"@,
        "bash-language-server"@,
        "pylsp"@,
    ].add(
        match rust_analyzer_pattern(pf) {
            Some(_) => seq!["rust-analyzer"@],
            None => Seq::empty(),
        },
    ).add(
        match clojure_lsp_pattern(pf) {
            Some(_) => seq!["clojure-lsp"@],
            None => Seq::empty(),
        },
    )
}

/// `p` is one of the language-server packages, exactly as its builder
/// states it.
pub open spec fn langservers_member_ok(p: Package, pf: Platform) -> bool {
    ||| is_gopls(p)
    ||| is_elixir_ls(p)
    ||| is_vscode_langservers_extracted(p)
    ||| is_typescript_ls(p)
    ||| is_pyright(p)
    ||| is_bash_ls(p)
    ||| is_pylsp(p)
    ||| is_rust_analyzer(p, pf)
    ||| is_clojure_lsp(p, pf)
}

/// The language servers, in catalog order; the two with platform-bound
/// assets appear only where the platform has one. Every element is the
/// package its builder describes.
pub fn packages(_cfg: &Config, pf: &Platform) -> (r: Vec<Package>)
    ensures
        package_names(r@) == langservers_names(*pf),
        forall|j: int| 0 <= j < r@.len() ==> langservers_member_ok(#[trigger] r@[j], *pf),
{
    let mut r: Vec<Package> = Vec::new();
    r.push(gopls());
    r.push(elixir_ls());
    r.push(vscode_langservers_extracted());
    r.push(typescript_ls());
    r.push(pyright());
    r.push(bash_ls());
    r.push(pylsp());
    proof {
        assert(forall|j: int| 0 <= j < r@.len() ==> langservers_member_ok(#[trigger] r@[j], *pf));
    }
    match rust_analyzer(pf) {
        Some(p) => {
            r.push(p);
        },
        None => {},
    }
    proof {
        assert(forall|j: int| 0 <= j < r@.len() ==> langservers_member_ok(#[trigger] r@[j], *pf));
    }
    match clojure_lsp(pf) {
        Some(p) => {
            r.push(p);
        },
        None => {},
    }
    proof {
        assert(forall|j: int| 0 <= j < r@.len() ==> langservers_member_ok(#[trigger] r@[j], *pf));
        assert(package_names(r@) =~= langservers_names(*pf));
    }
    r
}

/// `p` is exactly the gopls package.
pub open spec fn is_gopls(p: Package) -> bool {
    &&& p.info_spec() == (PkgInfoV {
        repo: "https://github.com/golang/tools"@,
        name: "gopls"@,
        mod_name: "golang.org/x/tools/gopls"@,
        bin_name: "gopls"@,
    })
    &&& p.asset_installer_spec() is None
    &&& p.native_installer_spec() matches Some(n) && n is Go
}

/// The Go language server, installed through the Go toolchain.
pub fn gopls() -> (p: Package)
    ensures
        is_gopls(p),
{
    let info = PkgInfo::new(
        "https://github.com/golang/tools",
        "gopls",
        "golang.org/x/tools/gopls",
        "gopls",
    );
    Package::new(info, None, Some(NativeInstaller::Go(GoInstaller {  })))
}

/// `p` is exactly the elixir-ls package.
pub open spec fn is_elixir_ls(p: Package) -> bool {
    &&& p.info_spec() == (PkgInfoV {
        repo: "https://github.com/elixir-lsp/elixir-ls"@,
        name: "elixir-ls"@,
        mod_name: "elixir-ls"@,
        bin_name: "elixir-ls"@,
    })
    &&& p.asset_installer_spec() matches Some(a) && a.pattern@ == "^elixir-ls-v.*\\.zip$"@
        && a.hook == AssetHook::DecompressAndSymlink
    &&& p.native_installer_spec() is None
}

/// The Elixir language server, unpacked from its release archive.
pub fn elixir_ls() -> (p: Package)
    ensures
        is_elixir_ls(p),
{
    let info = PkgInfo::named("https://github.com/elixir-lsp/elixir-ls", "elixir-ls");
    let installer = GithubReleaseInstaller::new(
        "^elixir-ls-v.*\\.zip$".to_owned(),
        AssetHook::DecompressAndSymlink,
    );
    Package::new(info, Some(installer), None)
}

/// The asset pattern of the Rust analyzer for this platform.
pub open spec fn rust_analyzer_pattern(pf: Platform) -> Option<Seq<char>> {
    musl_gnu_pattern_spec(
        pf,
        "rust-analyzer-x86_64-unknown-linux-musl.gz"@,
        "rust-analyzer-x86_64-unknown-linux-gnu.gz"@,
    )
}

/// `p` is exactly the rust-analyzer package for this platform.
pub open spec fn is_rust_analyzer(p: Package, pf: Platform) -> bool {
    &&& p.info_spec() == (PkgInfoV {
        repo: "https://github.com/rust-lang/rust-analyzer"@,
        name: "rust-analyzer"@,
        mod_name: "rust-analyzer"@,
        bin_name: "rust-analyzer"@,
    })
    &&& p.asset_installer_spec() matches Some(a) && rust_analyzer_pattern(pf) == Some(a.pattern@)
        && a.hook == AssetHook::DecompressToBin
    &&& p.native_installer_spec() is None
}

/// The Rust analyzer, from its release asset; only platforms with a
/// published binary get a package.
pub fn rust_analyzer(pf: &Platform) -> (p: Option<Package>)
    ensures
        match p {
            Some(pkg) => is_rust_analyzer(pkg, *pf),
            None => rust_analyzer_pattern(*pf) is None,
        },
{
    let pattern = pick_musl_gnu(
        pf,
        "rust-analyzer-x86_64-unknown-linux-musl.gz",
        "rust-analyzer-x86_64-unknown-linux-gnu.gz",
    );
    match pattern {
        Some(pat) => {
            let info = PkgInfo::named("https://github.com/rust-lang/rust-analyzer", "rust-analyzer");
            let installer = GithubReleaseInstaller::new(pat, AssetHook::DecompressToBin);
            Some(Package::new(info, Some(installer), None))
        },
        None => None,
    }
}

/// The asset pattern of the Clojure language server for this platform.
pub open spec fn clojure_lsp_pattern(pf: Platform) -> Option<Seq<char>> {
    if pf.os is Linux && pf.arch is X86_64 {
        Some("clojure-lsp-native-linux-amd64.zip"@)
    } else if pf.os is Linux && pf.arch is Aarch64 {
        Some("clojure-lsp-native-linux-aarch64.zip"@)
    } else {
        None
    }
}

/// `p` is exactly the clojure-lsp package for this platform.
pub open spec fn is_clojure_lsp(p: Package, pf: Platform) -> bool {
    &&& p.info_spec() == (PkgInfoV {
        repo: "https://github.com/clojure-lsp/clojure-lsp"@,
        name: "clojure-lsp"@,
        mod_name: "clojure-lsp"@,
        bin_name: "clojure-lsp"@,
    })
    &&& p.asset_installer_spec() matches Some(a) && clojure_lsp_pattern(pf) == Some(a.pattern@)
        && a.hook == AssetHook::DecompressSymlinkBin
    &&& p.native_installer_spec() is None
}

/// The Clojure language server, from its native release archive.
pub fn clojure_lsp(pf: &Platform) -> (p: Option<Package>)
    ensures
        match p {
            Some(pkg) => is_clojure_lsp(pkg, *pf),
            None => clojure_lsp_pattern(*pf) is None,
        },
{
    let pattern: Option<&str> = match (pf.os, pf.arch) {
        (crate::platform::Os::Linux, crate::platform::Arch::X86_64) => Some(
            "clojure-lsp-native-linux-amd64.zip",
        ),
        (crate::platform::Os::Linux, crate::platform::Arch::Aarch64) => Some(
            "clojure-lsp-native-linux-aarch64.zip",
        ),
        _ => None,
    };
    match pattern {
        Some(pat) => {
            let info = PkgInfo::named("https://github.com/clojure-lsp/clojure-lsp", "clojure-lsp");
            let installer = GithubReleaseInstaller::new(
                pat.to_owned(),
                AssetHook::DecompressSymlinkBin,
            );
            Some(Package::new(info, Some(installer), None))
        },
        None => None,
    }
}

/// `p` is exactly the vscode-langservers-extracted package.
pub open spec fn is_vscode_langservers_extracted(p: Package) -> bool {
    &&& p.info_spec() == (PkgInfoV {
        repo: "https://github.com/hrsh7th/vscode-langservers-extracted"@,
        name: "vscode-langservers-extracted"@,
        mod_name: "vscode-langservers-extracted"@,
        bin_name: "vscode-langservers-extracted"@,
    })
    &&& p.asset_installer_spec() is None
    &&& p.native_installer_spec() matches Some(n) && n matches NativeInstaller::Npm(npm)
        && npm.hook == NpmHook::VscodeLangservers && npm.dependencies@.len() == 0
}

/// The bundled vscode language servers, installed through npm with the
/// multi-binary linking hook.
pub fn vscode_langservers_extracted() -> (p: Package)
    ensures
        is_vscode_langservers_extracted(p),
{
    let info = PkgInfo::named(
        "https://github.com/hrsh7th/vscode-langservers-extracted",
        "vscode-langservers-extracted",
    );
    let installer = NpmInstaller::new(Vec::new(), NpmHook::VscodeLangservers);
    Package::new(info, None, Some(NativeInstaller::Npm(installer)))
}

/// `p` is exactly the typescript-language-server package.
pub open spec fn is_typescript_ls(p: Package) -> bool {
    &&& p.info_spec() == (PkgInfoV {
        repo: "https://github.com/typescript-language-server/typescript-language-server"@,
        name: "typescript-language-server"@,
        mod_name: "typescript-language-server"@,
        bin_name: "typescript-language-server"@,
    })
    &&& p.asset_installer_spec() is None
    &&& p.native_installer_spec() matches Some(n) && n matches NativeInstaller::Npm(npm)
        && npm.hook == NpmHook::NoHook && npm.dependencies@.len() == 1
        && npm.dependencies@[0]@ == "typescript"@
}

/// The TypeScript language server, with the typescript package alongside.
pub fn typescript_ls() -> (p: Package)
    ensures
        is_typescript_ls(p),
{
    let info = PkgInfo::named(
        "https://github.com/typescript-language-server/typescript-language-server",
        "typescript-language-server",
    );
    let mut deps: Vec<String> = Vec::new();
    deps.push("typescript".to_owned());
    let installer = NpmInstaller::new(deps, NpmHook::NoHook);
    Package::new(info, None, Some(NativeInstaller::Npm(installer)))
}

/// `p` is exactly the pyright package.
pub open spec fn is_pyright(p: Package) -> bool {
    &&& p.info_spec() == (PkgInfoV {
        repo: "https://github.com/microsoft/pyright"@,
        name: "pyright"@,
        mod_name: "pyright"@,
        bin_name: "pyright"@,
    })
    &&& p.asset_installer_spec() is None
    &&& p.native_installer_spec() matches Some(n) && n matches NativeInstaller::Npm(npm)
        && npm.hook == NpmHook::NoHook && npm.dependencies@.len() == 0
}

/// The Python type checker and language server from Microsoft.
pub fn pyright() -> (p: Package)
    ensures
        is_pyright(p),
{
    let info = PkgInfo::named("https://github.com/microsoft/pyright", "pyright");
    let installer = NpmInstaller::new(Vec::new(), NpmHook::NoHook);
    Package::new(info, None, Some(NativeInstaller::Npm(installer)))
}

/// `p` is exactly the bash-language-server package.
pub open spec fn is_bash_ls(p: Package) -> bool {
    &&& p.info_spec() == (PkgInfoV {
        repo: "https://github.com/bash-lsp/bash-language-server"@,
        name: "bash-language-server"@,
        mod_name: "bash-language-server"@,
        bin_name: "bash-language-server"@,
    })
    &&& p.asset_installer_spec() is None
    &&& p.native_installer_spec() matches Some(n) && n matches NativeInstaller::Npm(npm)
        && npm.hook == NpmHook::NoHook && npm.dependencies@.len() == 0
}

/// The bash language server.
pub fn bash_ls() -> (p: Package)
    ensures
        is_bash_ls(p),
{
    let info = PkgInfo::named("https://github.com/bash-lsp/bash-language-server", "bash-language-server");
    let installer = NpmInstaller::new(Vec::new(), NpmHook::NoHook);
    Package::new(info, None, Some(NativeInstaller::Npm(installer)))
}

/// `p` is exactly the pylsp package.
pub open spec fn is_pylsp(p: Package) -> bool {
    &&& p.info_spec() == (PkgInfoV {
        repo: "https://github.com/python-lsp/python-lsp-server"@,
        name: "pylsp"@,
        mod_name: "python-lsp-server"@,
        bin_name: "pylsp"@,
    })
    &&& p.asset_installer_spec() is None
    &&& p.native_installer_spec() matches Some(n) && n matches NativeInstaller::Pip(pip)
        && pip.dependencies@.len() == 0
}

/// The Python language server, installed through pip into its own virtual
/// environment.
pub fn pylsp() -> (p: Package)
    ensures
        is_pylsp(p),
{
    let info = PkgInfo::new(
        "https://github.com/python-lsp/python-lsp-server",
        "pylsp",
        "python-lsp-server",
        "pylsp",
    );
    let installer = PIP::new(Vec::new());
    Package::new(info, None, Some(NativeInstaller::Pip(installer)))
}

} // verus!
