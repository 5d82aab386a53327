use devtoolinstaller::actions::{Action, ScriptOptions};
use devtoolinstaller::error::Error;
use devtoolinstaller::installers::{
    default_uninstall_actions, elixirls_callback, ltex_ls_callback, luals_callback,
    vscode_langservers_extracted_callback, AssetHook, CargoInstaller, GithubReleaseInstaller,
    GoInstaller, NpmHook, NpmInstaller, PIP,
};
use devtoolinstaller::pkg::{CallbackOperation, Dirs, PkgInfo};
use devtoolinstaller::release::{Asset, Release};

fn dirs() -> Dirs {
    Dirs {
        root_dir: String::from("/root"),
        bin_dir: String::from("/root/bin"),
        pkg_dir: String::from("/root/pkg"),
    }
}

fn release_with_assets(tag: &str, names: &[&str]) -> Release {
    let assets = names
        .iter()
        .map(|n| Asset { name: String::from(*n), url: format!("https://example.invalid/{}", n) })
        .collect();
    Release { name: String::from("r"), tag: String::from(tag), prerelease: false, assets }
}

#[test]
fn test_cargo_plan_pins_semantic_versions() {
    let info = PkgInfo::named("https://github.com/sharkdp/bat", "bat");
    let rel = release_with_assets("v0.24.0", &[]);
    let plan = CargoInstaller {}.plan(&info, &dirs(), Some(&rel));
    assert_eq!(plan.required_prog, "cargo");
    assert_eq!(plan.cmd.program, "cargo");
    let args: Vec<&str> = plan.cmd.args.iter().map(|a| a.as_str()).collect();
    assert_eq!(args, ["install", "--root", "/root", "--version", "0.24.0", "bat"]);
    assert!(plan.pre.is_empty() && plan.post.is_empty());
}

#[test]
fn test_cargo_plan_without_release_or_semver() {
    let info = PkgInfo::named("https://github.com/sharkdp/bat", "bat");
    let plan = CargoInstaller {}.plan(&info, &dirs(), None);
    let args: Vec<&str> = plan.cmd.args.iter().map(|a| a.as_str()).collect();
    assert_eq!(args, ["install", "--root", "/root", "bat"]);
    let rel = release_with_assets("nightly", &[]);
    let plan = CargoInstaller {}.plan(&info, &dirs(), Some(&rel));
    let args: Vec<&str> = plan.cmd.args.iter().map(|a| a.as_str()).collect();
    assert_eq!(args, ["install", "--root", "/root", "bat"]);
}

#[test]
fn test_go_plan_targets_version_or_latest() {
    let info = PkgInfo::new(
        "https://github.com/golang/tools",
        "gopls",
        "golang.org/x/tools/gopls",
        "gopls",
    );
    let plan = GoInstaller {}.plan(&info, &dirs(), None);
    assert_eq!(plan.required_prog, "go");
    let args: Vec<&str> = plan.cmd.args.iter().map(|a| a.as_str()).collect();
    assert_eq!(args, ["install", "golang.org/x/tools/gopls@latest"]);
    assert_eq!(plan.cmd.env.len(), 1);
    assert_eq!(plan.cmd.env[0].key, "GOBIN");
    assert_eq!(plan.cmd.env[0].value, "/root/bin");

    let rel = release_with_assets("gopls/v0.14.2", &[]);
    let plan = GoInstaller {}.plan(&info, &dirs(), Some(&rel));
    let args: Vec<&str> = plan.cmd.args.iter().map(|a| a.as_str()).collect();
    assert_eq!(args, ["install", "golang.org/x/tools/gopls@v0.14.2"]);
}

#[test]
fn test_npm_plan() {
    let info = PkgInfo::named(
        "https://github.com/typescript-language-server/typescript-language-server",
        "typescript-language-server",
    );
    let mut deps = Vec::new();
    deps.push(String::from("typescript"));
    let npm = NpmInstaller::new(deps, NpmHook::NoHook);
    let plan = npm.plan(&info, &dirs(), None);
    assert_eq!(plan.required_prog, "npm");
    let args: Vec<&str> = plan.cmd.args.iter().map(|a| a.as_str()).collect();
    assert_eq!(
        args,
        [
            "install",
            "--global",
            "--prefix",
            "/root/pkg/typescript-language-server",
            "typescript-language-server",
            "typescript"
        ]
    );
    assert!(matches!(&plan.pre[0], Action::EnsureDir(d) if d == "/root/pkg/typescript-language-server"));
    assert!(matches!(
        &plan.post[0],
        Action::SymlinkIfExists { original, link }
            if original == "/root/pkg/typescript-language-server/bin/typescript-language-server"
            && link == "/root/bin/typescript-language-server"
    ));
}

#[test]
fn test_pip_plan() {
    let info = PkgInfo::new(
        "https://github.com/python-lsp/python-lsp-server",
        "pylsp",
        "python-lsp-server",
        "pylsp",
    );
    let pip = PIP::new(Vec::new());
    let rel = release_with_assets("v1.10.0", &[]);
    let plan = pip.plan(&info, &dirs(), Some(&rel));
    assert_eq!(plan.required_prog, "python");
    assert_eq!(plan.cmd.program, "/root/pkg/python-lsp-server/venv/bin/pip");
    let args: Vec<&str> = plan.cmd.args.iter().map(|a| a.as_str()).collect();
    assert_eq!(args, ["install", "--upgrade", "python-lsp-server==v1.10.0"]);
    assert!(matches!(&plan.pre[0], Action::EnsureDir(d) if d == "/root/pkg/python-lsp-server"));
    assert!(matches!(
        &plan.pre[1],
        Action::RunIfMissing { path, cmd }
            if path == "/root/pkg/python-lsp-server/venv" && cmd.program == "python"
    ));
    assert!(matches!(
        &plan.post[0],
        Action::Symlink { original, link }
            if original == "/root/pkg/python-lsp-server/venv/bin/pylsp"
            && link == "/root/bin/pylsp"
    ));
}

#[test]
fn test_asset_plan_needs_a_release() {
    let inst = GithubReleaseInstaller::new(String::from("tool-linux"), AssetHook::PlainBin);
    let info = PkgInfo::named("https://github.com/example/tool", "tool");
    match inst.plan(&info, &dirs(), None) {
        Err(Error::MissingRelease) => {}
        _ => panic!("expected a missing release"),
    }
}

#[test]
fn test_asset_plan_downloads_and_unpacks() {
    let inst = GithubReleaseInstaller::new(String::from("linux"), AssetHook::ArchiveDirBin);
    let info = PkgInfo::named("https://github.com/sharkdp/bat", "bat");
    let rel = release_with_assets("v0.24.0", &["bat-v0.24.0-linux.tar.gz"]);
    let plan = inst.plan(&info, &dirs(), Some(&rel)).expect("plan");
    assert_eq!(plan.asset.name, "bat-v0.24.0-linux.tar.gz");
    assert_eq!(plan.archive_path, "/root/pkg/bat/bat-v0.24.0-linux.tar.gz");
    assert!(matches!(&plan.actions[0], Action::EnsureDir(d) if d == "/root/pkg/bat"));
    assert!(matches!(
        &plan.actions[1],
        Action::Download { url, dest }
            if url == "https://example.invalid/bat-v0.24.0-linux.tar.gz"
            && dest == "/root/pkg/bat/bat-v0.24.0-linux.tar.gz"
    ));
    assert!(matches!(
        &plan.actions[2],
        Action::Decompress { archive, dest }
            if archive == "/root/pkg/bat/bat-v0.24.0-linux.tar.gz" && dest == "/root/pkg/bat"
    ));
    // the archive's own name, without .tar.gz, names the unpacked directory
    assert!(matches!(
        &plan.actions[3],
        Action::Rename { from, to }
            if from == "/root/pkg/bat/bat-v0.24.0-linux/bat" && to == "/root/bin/bat"
    ));
    assert!(matches!(&plan.actions[4], Action::MakeExecutable(p) if p == "/root/bin/bat"));
    assert!(matches!(&plan.actions[5], Action::RemoveDirAll(d) if d == "/root/pkg/bat"));
}

#[test]
fn test_asset_plan_reports_missing_system_asset() {
    let inst = GithubReleaseInstaller::new(String::from("linux"), AssetHook::PlainBin);
    let info = PkgInfo::named("https://github.com/example/tool", "tool");
    let rel = release_with_assets("v1.0.0", &["tool-windows.zip"]);
    match inst.plan(&info, &dirs(), Some(&rel)) {
        Err(Error::MissingSystemAsset) => {}
        _ => panic!("expected a missing system asset"),
    }
}

#[test]
fn test_default_uninstall_removes_binary_and_package_dir() {
    let info = PkgInfo::with_module("https://github.com/sharkdp/fd", "fd", "fd-find");
    let actions = default_uninstall_actions(&info, &dirs());
    assert!(matches!(&actions[0], Action::RemoveFileIfExists(p) if p == "/root/bin/fd"));
    assert!(matches!(&actions[1], Action::RemoveDirIfExists(p) if p == "/root/pkg/fd-find"));
    assert_eq!(actions.len(), 2);
}

#[test]
fn test_script_options_content() {
    let opt = ScriptOptions::new();
    let lines = vec![String::from("exec tool \"$@\"")];
    assert_eq!(opt.script_content(&lines), "#!/usr/bin/env bash\nexec tool \"$@\"");
    let actions = opt.create_actions("/root/bin/tool", &lines);
    assert!(matches!(
        &actions[0],
        Action::WriteScript { path, content }
            if path == "/root/bin/tool" && content == "#!/usr/bin/env bash\nexec tool \"$@\""
    ));
    assert!(matches!(&actions[1], Action::MakeExecutable(p) if p == "/root/bin/tool"));
    assert_eq!(actions.len(), 2);
}

#[test]
fn test_elixirls_callback_actions() {
    let info = PkgInfo::named("https://github.com/elixir-lsp/elixir-ls", "elixir-ls");
    let actions = elixirls_callback(&info, &dirs(), "/root/pkg/elixir-ls/a.zip");
    assert!(matches!(
        &actions[0],
        Action::Decompress { archive, dest }
            if archive == "/root/pkg/elixir-ls/a.zip" && dest == "/root/pkg/elixir-ls"
    ));
    assert!(matches!(
        &actions[1],
        Action::Symlink { original, link }
            if original == "/root/pkg/elixir-ls/language_server.sh" && link == "/root/bin/elixir-ls"
    ));
}

#[test]
fn test_luals_callback_writes_wrapper_script() {
    let info = PkgInfo::named("https://github.com/LuaLS/lua-language-server", "lua-language-server");
    let actions = luals_callback(&info, &dirs(), "/root/pkg/lua-language-server/a.tar.gz");
    assert!(matches!(&actions[0], Action::Decompress { .. }));
    assert!(matches!(
        &actions[1],
        Action::WriteScript { path, content }
            if path == "/root/bin/lua-language-server"
            && content
                == "#!/usr/bin/env bash\nexec \"/root/pkg/lua-language-server/bin/lua-language-server\" \"$@\""
    ));
    assert!(matches!(&actions[2], Action::MakeExecutable(p) if p == "/root/bin/lua-language-server"));
}

#[test]
fn test_vscode_langservers_callback_links_all_four() {
    let info = PkgInfo::named(
        "https://github.com/hrsh7th/vscode-langservers-extracted",
        "vscode-langservers-extracted",
    );
    let actions = vscode_langservers_extracted_callback(CallbackOperation::Install, &info, &dirs());
    assert_eq!(actions.len(), 4);
    assert!(matches!(
        &actions[0],
        Action::Symlink { original, link }
            if original == "/root/pkg/vscode-langservers-extracted/bin/vscode-css-language-server"
            && link == "/root/bin/vscode-css-language-server"
    ));
    let actions = vscode_langservers_extracted_callback(CallbackOperation::Uninstall, &info, &dirs());
    assert_eq!(actions.len(), 4);
    assert!(matches!(
        &actions[3],
        Action::RemoveFileIfExists(p) if p == "/root/bin/vscode-markdown-language-server"
    ));
}

#[test]
fn test_ltex_callback_needs_a_versioned_directory() {
    let info = PkgInfo::named("https://github.com/valentjn/ltex-ls", "ltex-ls");
    match ltex_ls_callback(&info, &dirs(), &Vec::new()) {
        Err(Error::Install { package, reason }) => {
            assert_eq!(package, "ltex-ls");
            assert_eq!(reason, "failed to locate installed package");
        }
        _ => panic!("expected an install error"),
    }
    let subdirs = vec![String::from("/root/pkg/ltex-ls/ltex-ls-16.0.0")];
    let actions = ltex_ls_callback(&info, &dirs(), &subdirs).expect("actions");
    assert!(matches!(
        &actions[0],
        Action::Symlink { original, link }
            if original == "/root/pkg/ltex-ls/ltex-ls-16.0.0/bin/ltex-ls"
            && link == "/root/bin/ltex-ls"
    ));
}
