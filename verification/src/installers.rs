//! The installers, as planners: each turns a package, the directories and
//! an optional release into the exact effects and commands to perform.

use vstd::prelude::*;
use crate::actions::{actions_view, Action, ActionV, CmdSpec, CmdSpecV, EnvVar, EnvVarV, ScriptOptions};
use crate::error::{Error, ErrorV};
use crate::pkg::{Dirs, DirsV, PkgInfo, PkgInfoV};
use crate::release::{
    assets_view, first_match_index, has_asset_match, is_first_match, regex_valid, select_asset,
    Asset, Release,
};
use crate::text::{concat3, path_join, path_join_spec, strings_view, trim_end_matches, trim_end_spec};
use crate::version::{dec_rep, parse_spec, render_spec, u16_to_dec, Version, VersionV};

verus! {

/// The per-package post-processing applied after a release asset has been
/// downloaded.
#[derive(Clone, Copy, Debug, PartialEq, Eq, Structural)]
pub enum AssetHook {
    /// Unpack into the package directory and link a named file from it.
    DecompressAndSymlink,
    /// The archive is the binary, gzipped: unpack it straight to the
    /// executable and set its bits.
    DecompressToBin,
    /// Unpack into the package directory and link the binary from it.
    DecompressSymlinkBin,
    /// The archive unpacks into a directory named after itself; move the
    /// binary out and drop the rest.
    ArchiveDirBin,
    /// The archive unpacks the binary at its top level; move it out.
    PlainBin,
    /// The archive unpacks the binary under `bin/`; move it out.
    BinSubdir,
    /// The downloaded file is the binary itself: move it into place.
    MoveToBin,
    /// Make the downloaded file executable and link it.
    ChmodSymlink,
    /// Unpack and write an executable wrapper script.
    ScriptWrapper,
}

/// Unpacks the archive into the package's directory and links the named
/// executable from it.
pub fn elixirls_callback(info: &PkgInfo, dirs: &Dirs, path: &str) -> (r: Vec<Action>)
    ensures
        actions_view(r@) == elixirls_actions_spec(info@, dirs@, path@),
{
    let pkg_dir = path_join(dirs.pkg_dir.as_str(), info.name.as_str());
    let executable = path_join(pkg_dir.as_str(), "language_server.sh");
    let bin = path_join(dirs.bin_dir.as_str(), info.name.as_str());
    let mut r: Vec<Action> = Vec::new();
    r.push(Action::Decompress { archive: path.to_owned(), dest: pkg_dir });
    r.push(Action::Symlink { original: executable, link: bin });
    proof {
        assert(actions_view(r@) =~= elixirls_actions_spec(info@, dirs@, path@));
    }
    r
}

pub open spec fn elixirls_actions_spec(info: PkgInfoV, dirs: DirsV, path: Seq<char>) -> Seq<
    ActionV,
> {
    let pkg_dir = path_join_spec(dirs.pkg_dir, info.name);
    seq![
        ActionV::Decompress { archive: path, dest: pkg_dir },
        ActionV::Symlink {
            original: path_join_spec(pkg_dir, "language_server.sh"@),
            link: path_join_spec(dirs.bin_dir, info.name),
        },
    ]
}

/// Unpacks the gzipped binary straight to its place and sets the
/// executable bits.
pub fn rust_analyzer_callback(info: &PkgInfo, dirs: &Dirs, path: &str) -> (r: Vec<Action>)
    ensures
        actions_view(r@) == rust_analyzer_actions_spec(info@, dirs@, path@),
{
    let bin = path_join(dirs.bin_dir.as_str(), info.name.as_str());
    let mut r: Vec<Action> = Vec::new();
    r.push(Action::Decompress { archive: path.to_owned(), dest: bin.clone() });
    r.push(Action::MakeExecutable(bin));
    proof {
        assert(actions_view(r@) =~= rust_analyzer_actions_spec(info@, dirs@, path@));
    }
    r
}

pub open spec fn rust_analyzer_actions_spec(info: PkgInfoV, dirs: DirsV, path: Seq<char>) -> Seq<
    ActionV,
> {
    let bin = path_join_spec(dirs.bin_dir, info.name);
    seq![
        ActionV::Decompress { archive: path, dest: bin },
        ActionV::MakeExecutable(bin),
    ]
}

/// Unpacks into the package directory and links the binary from it.
pub fn clojure_lsp_callback(info: &PkgInfo, dirs: &Dirs, path: &str) -> (r: Vec<Action>)
    ensures
        actions_view(r@) == clojure_lsp_actions_spec(info@, dirs@, path@),
{
    let pkg_dir = path_join(dirs.pkg_dir.as_str(), info.name.as_str());
    let pkg_bin = path_join(pkg_dir.as_str(), info.bin_name.as_str());
    let bin = path_join(dirs.bin_dir.as_str(), info.bin_name.as_str());
    let mut r: Vec<Action> = Vec::new();
    r.push(Action::Decompress { archive: path.to_owned(), dest: pkg_dir });
    r.push(Action::Symlink { original: pkg_bin, link: bin });
    proof {
        assert(actions_view(r@) =~= clojure_lsp_actions_spec(info@, dirs@, path@));
    }
    r
}

pub open spec fn clojure_lsp_actions_spec(info: PkgInfoV, dirs: DirsV, path: Seq<char>) -> Seq<
    ActionV,
> {
    let pkg_dir = path_join_spec(dirs.pkg_dir, info.name);
    seq![
        ActionV::Decompress { archive: path, dest: pkg_dir },
        ActionV::Symlink {
            original: path_join_spec(pkg_dir, info.bin_name),
            link: path_join_spec(dirs.bin_dir, info.bin_name),
        },
    ]
}

/// Makes the downloaded file executable and links it as the binary.
pub fn direnv_callback(info: &PkgInfo, dirs: &Dirs, path: &str) -> (r: Vec<Action>)
    ensures
        actions_view(r@) == direnv_actions_spec(info@, dirs@, path@),
{
    let bin = path_join(dirs.bin_dir.as_str(), info.name.as_str());
    let mut r: Vec<Action> = Vec::new();
    r.push(Action::MakeExecutable(path.to_owned()));
    r.push(Action::Symlink { original: path.to_owned(), link: bin });
    proof {
        assert(actions_view(r@) =~= direnv_actions_spec(info@, dirs@, path@));
    }
    r
}

pub open spec fn direnv_actions_spec(info: PkgInfoV, dirs: DirsV, path: Seq<char>) -> Seq<
    ActionV,
> {
    seq![
        ActionV::MakeExecutable(path),
        ActionV::Symlink { original: path, link: path_join_spec(dirs.bin_dir, info.name) },
    ]
}

/// Unpacks into the package directory and writes an executable wrapper
/// script that runs the unpacked server.
pub fn luals_callback(info: &PkgInfo, dirs: &Dirs, path: &str) -> (r: Vec<Action>)
    ensures
        actions_view(r@) == luals_actions_spec(info@, dirs@, path@),
{
    let pkg_dir = path_join(dirs.pkg_dir.as_str(), info.name.as_str());
    let pkg_bin = path_join(path_join(pkg_dir.as_str(), "bin").as_str(), info.name.as_str());
    let line = concat3("exec \"", pkg_bin.as_str(), "\" \"$@\"");
    let mut lines: Vec<String> = Vec::new();
    lines.push(line);
    let opt = ScriptOptions::new();
    let bin = path_join(dirs.bin_dir.as_str(), info.name.as_str());
    let script = opt.create_actions(bin.as_str(), &lines);
    let mut r: Vec<Action> = Vec::new();
    r.push(Action::Decompress { archive: path.to_owned(), dest: pkg_dir });
    let mut i: usize = 0;
    while i < script.len()
        invariant
            i <= script.len(),
            r@.len() == 1 + i,
            forall|k: int| 0 <= k < i ==> r@[1 + k]@ == script@[k]@,
            r@[0]@ == (ActionV::Decompress {
                archive: path@,
                dest: path_join_spec(dirs.pkg_dir@, info.name@),
            }),
        decreases script.len() - i,
    {
        let a = clone_action(&script[i]);
        proof {
            assert(a@ == script@[i as int]@);
        }
        r.push(a);
        proof {
            assert(forall|k: int| 0 <= k < i + 1 ==> r@[1 + k]@ == script@[k]@);
        }
        i = i + 1;
    }
    proof {
        assert(actions_view(r@) =~= seq![
            ActionV::Decompress {
                archive: path@,
                dest: path_join_spec(dirs.pkg_dir@, info.name@),
            },
        ].add(actions_view(script@)));
        let pkg_dirv = path_join_spec(dirs@.pkg_dir, info@.name);
        let pkg_binv = path_join_spec(path_join_spec(pkg_dirv, "bin"@), info@.name);
        let linev = "exec \""@ + pkg_binv + "\" \"$@\""@;
        assert(strings_view(lines@) =~= seq![linev]);
        let binv = path_join_spec(dirs@.bin_dir, info@.name);
        let contentv = crate::actions::script_content_spec(true, "bash"@, seq![linev]);
        assert(actions_view(script@) =~= seq![
            ActionV::WriteScript { path: binv, content: contentv },
            ActionV::MakeExecutable(binv),
        ]);
        assert(actions_view(r@) =~= luals_actions_spec(info@, dirs@, path@));
    }
    r
}

pub open spec fn luals_actions_spec(info: PkgInfoV, dirs: DirsV, path: Seq<char>) -> Seq<ActionV> {
    let pkg_dir = path_join_spec(dirs.pkg_dir, info.name);
    let pkg_bin = path_join_spec(path_join_spec(pkg_dir, "bin"@), info.name);
    let line = "exec \""@ + pkg_bin + "\" \"$@\""@;
    let bin = path_join_spec(dirs.bin_dir, info.name);
    let content = crate::actions::script_content_spec(true, "bash"@, seq![line]);
    seq![
        ActionV::Decompress { archive: path, dest: pkg_dir },
        ActionV::WriteScript { path: bin, content },
        ActionV::MakeExecutable(bin),
    ]
}

/// Links the binary out of the single versioned directory the archive
/// unpacked; the directory listing is handed in by the caller. With no
/// subdirectory to link from, the install fails.
pub fn ltex_ls_callback(info: &PkgInfo, dirs: &Dirs, subdirs: &Vec<String>) -> (r: Result<
    Vec<Action>,
    Error,
>)
    ensures
        match r {
            Ok(a) => subdirs@.len() > 0 && actions_view(a@) == seq![
                ActionV::Symlink {
                    original: path_join_spec(
                        path_join_spec(subdirs@[0]@, "bin"@),
                        info@.bin_name,
                    ),
                    link: path_join_spec(dirs@.bin_dir, info@.bin_name),
                },
            ],
            Err(e) => subdirs@.len() == 0 && e@ == (ErrorV::Install {
                package: info@.name,
                reason: "failed to locate installed package"@,
            }),
        },
{
    if subdirs.len() == 0 {
        return Err(
            Error::Install {
                package: info.name.clone(),
                reason: "failed to locate installed package".to_owned(),
            },
        );
    }
    let pkg_bin = path_join(
        path_join(subdirs[0].as_str(), "bin").as_str(),
        info.bin_name.as_str(),
    );
    let bin = path_join(dirs.bin_dir.as_str(), info.bin_name.as_str());
    let mut a: Vec<Action> = Vec::new();
    a.push(Action::Symlink { original: pkg_bin, link: bin });
    proof {
        assert(actions_view(a@) =~= seq![
            ActionV::Symlink {
                original: path_join_spec(path_join_spec(subdirs@[0]@, "bin"@), info@.bin_name),
                link: path_join_spec(dirs@.bin_dir, info@.bin_name),
            },
        ]);
    }
    Ok(a)
}

/// A structural copy of an action.
fn clone_action(a: &Action) -> (r: Action)
    ensures
        r@ == a@,
{
    let r = match a {
        Action::EnsureDir(d) => Action::EnsureDir(d.clone()),
        Action::Download { url, dest } => Action::Download { url: url.clone(), dest: dest.clone() },
        Action::Decompress { archive, dest } => Action::Decompress {
            archive: archive.clone(),
            dest: dest.clone(),
        },
        Action::Rename { from, to } => Action::Rename { from: from.clone(), to: to.clone() },
        Action::Symlink { original, link } => Action::Symlink {
            original: original.clone(),
            link: link.clone(),
        },
        Action::SymlinkIfExists { original, link } => Action::SymlinkIfExists {
            original: original.clone(),
            link: link.clone(),
        },
        Action::MakeExecutable(p) => Action::MakeExecutable(p.clone()),
        Action::WriteScript { path, content } => Action::WriteScript {
            path: path.clone(),
            content: content.clone(),
        },
        Action::RemoveFileIfExists(p) => Action::RemoveFileIfExists(p.clone()),
        Action::RemoveDirIfExists(p) => Action::RemoveDirIfExists(p.clone()),
        Action::RemoveDirAll(p) => Action::RemoveDirAll(p.clone()),
        Action::Run(c) => Action::Run(clone_cmd(c)),
        Action::RunIfMissing { path, cmd } => Action::RunIfMissing {
            path: path.clone(),
            cmd: clone_cmd(cmd),
        },
    };
    proof {
        assert(r@ =~= a@);
    }
    r
}

/// A structural copy of a command.
fn clone_cmd(c: &CmdSpec) -> (r: CmdSpec)
    ensures
        r@ == c@,
{
    let mut args: Vec<String> = Vec::new();
    let mut i: usize = 0;
    while i < c.args.len()
        invariant
            i <= c.args.len(),
            args@.len() == i,
            forall|k: int| 0 <= k < i ==> args@[k]@ == c.args@[k]@,
        decreases c.args.len() - i,
    {
        args.push(c.args[i].clone());
        i = i + 1;
    }
    let mut env: Vec<EnvVar> = Vec::new();
    let mut j: usize = 0;
    while j < c.env.len()
        invariant
            j <= c.env.len(),
            env@.len() == j,
            forall|k: int| 0 <= k < j ==> env@[k]@ == c.env@[k]@,
        decreases c.env.len() - j,
    {
        env.push(EnvVar { key: c.env[j].key.clone(), value: c.env[j].value.clone() });
        proof {
            assert(env@.last()@ =~= c.env@[j as int]@);
        }
        j = j + 1;
    }
    let r = CmdSpec { program: c.program.clone(), args, env };
    proof {
        assert(r@.args =~= c@.args);
        assert(r@.env =~= c@.env);
        assert(r@ =~= c@);
    }
    r
}

/// The actions a hook performs after the archive landed at `path`.
pub open spec fn hook_actions_spec(
    hook: AssetHook,
    info: PkgInfoV,
    dirs: DirsV,
    path: Seq<char>,
    asset_name: Seq<char>,
) -> Seq<ActionV> {
    let pkg_dir = path_join_spec(dirs.pkg_dir, info.name);
    let bin = path_join_spec(dirs.bin_dir, info.bin_name);
    match hook {
        AssetHook::DecompressAndSymlink => elixirls_actions_spec(info, dirs, path),
        AssetHook::DecompressToBin => rust_analyzer_actions_spec(info, dirs, path),
        AssetHook::DecompressSymlinkBin => clojure_lsp_actions_spec(info, dirs, path),
        AssetHook::ArchiveDirBin => {
            let dirname = trim_end_spec(asset_name, ".tar.gz"@);
            seq![
                ActionV::Decompress { archive: path, dest: pkg_dir },
                ActionV::Rename {
                    from: path_join_spec(path_join_spec(pkg_dir, dirname), info.bin_name),
                    to: bin,
                },
                ActionV::MakeExecutable(bin),
                ActionV::RemoveDirAll(pkg_dir),
            ]
        },
        AssetHook::PlainBin => {
            seq![
                ActionV::Decompress { archive: path, dest: pkg_dir },
                ActionV::Rename { from: path_join_spec(pkg_dir, info.name), to: path_join_spec(dirs.bin_dir, info.name) },
                ActionV::MakeExecutable(path_join_spec(dirs.bin_dir, info.name)),
                ActionV::RemoveDirAll(pkg_dir),
            ]
        },
        AssetHook::BinSubdir => {
            seq![
                ActionV::Decompress { archive: path, dest: pkg_dir },
                ActionV::Rename {
                    from: path_join_spec(path_join_spec(pkg_dir, "bin"@), info.name),
                    to: path_join_spec(dirs.bin_dir, info.name),
                },
                ActionV::MakeExecutable(path_join_spec(dirs.bin_dir, info.name)),
                ActionV::RemoveDirAll(pkg_dir),
            ]
        },
        AssetHook::MoveToBin => {
            seq![
                ActionV::Rename { from: path, to: path_join_spec(dirs.bin_dir, info.name) },
                ActionV::MakeExecutable(path_join_spec(dirs.bin_dir, info.name)),
            ]
        },
        AssetHook::ChmodSymlink => direnv_actions_spec(info, dirs, path),
        AssetHook::ScriptWrapper => luals_actions_spec(info, dirs, path),
    }
}

/// Dispatches to the hook's actions.
pub fn hook_actions(
    hook: &AssetHook,
    info: &PkgInfo,
    dirs: &Dirs,
    path: &str,
    asset_name: &str,
) -> (r: Vec<Action>)
    ensures
        actions_view(r@) == hook_actions_spec(*hook, info@, dirs@, path@, asset_name@),
{
    let pkg_dir = path_join(dirs.pkg_dir.as_str(), info.name.as_str());
    let bin = path_join(dirs.bin_dir.as_str(), info.bin_name.as_str());
    match hook {
        AssetHook::DecompressAndSymlink => elixirls_callback(info, dirs, path),
        AssetHook::DecompressToBin => rust_analyzer_callback(info, dirs, path),
        AssetHook::DecompressSymlinkBin => clojure_lsp_callback(info, dirs, path),
        AssetHook::ArchiveDirBin => {
            let dirname = trim_end_matches(asset_name, ".tar.gz");
            let from = path_join(
                path_join(pkg_dir.as_str(), dirname.as_str()).as_str(),
                info.bin_name.as_str(),
            );
            let mut r: Vec<Action> = Vec::new();
            r.push(Action::Decompress { archive: path.to_owned(), dest: pkg_dir.clone() });
            r.push(Action::Rename { from, to: bin.clone() });
            r.push(Action::MakeExecutable(bin));
            r.push(Action::RemoveDirAll(pkg_dir));
            proof {
                assert(actions_view(r@) =~= hook_actions_spec(
                    *hook,
                    info@,
                    dirs@,
                    path@,
                    asset_name@,
                ));
            }
            r
        },
        AssetHook::PlainBin => {
            let from = path_join(pkg_dir.as_str(), info.name.as_str());
            let to = path_join(dirs.bin_dir.as_str(), info.name.as_str());
            let mut r: Vec<Action> = Vec::new();
            r.push(Action::Decompress { archive: path.to_owned(), dest: pkg_dir.clone() });
            r.push(Action::Rename { from, to: to.clone() });
            r.push(Action::MakeExecutable(to));
            r.push(Action::RemoveDirAll(pkg_dir));
            proof {
                assert(actions_view(r@) =~= hook_actions_spec(
                    *hook,
                    info@,
                    dirs@,
                    path@,
                    asset_name@,
                ));
            }
            r
        },
        AssetHook::BinSubdir => {
            let from = path_join(
                path_join(pkg_dir.as_str(), "bin").as_str(),
                info.name.as_str(),
            );
            let to = path_join(dirs.bin_dir.as_str(), info.name.as_str());
            let mut r: Vec<Action> = Vec::new();
            r.push(Action::Decompress { archive: path.to_owned(), dest: pkg_dir.clone() });
            r.push(Action::Rename { from, to: to.clone() });
            r.push(Action::MakeExecutable(to));
            r.push(Action::RemoveDirAll(pkg_dir));
            proof {
                assert(actions_view(r@) =~= hook_actions_spec(
                    *hook,
                    info@,
                    dirs@,
                    path@,
                    asset_name@,
                ));
            }
            r
        },
        AssetHook::MoveToBin => {
            let to = path_join(dirs.bin_dir.as_str(), info.name.as_str());
            let mut r: Vec<Action> = Vec::new();
            r.push(Action::Rename { from: path.to_owned(), to: to.clone() });
            r.push(Action::MakeExecutable(to));
            proof {
                assert(actions_view(r@) =~= hook_actions_spec(
                    *hook,
                    info@,
                    dirs@,
                    path@,
                    asset_name@,
                ));
            }
            r
        },
        AssetHook::ChmodSymlink => direnv_callback(info, dirs, path),
        AssetHook::ScriptWrapper => luals_callback(info, dirs, path),
    }
}

/// The asset-based installer: a platform pattern for the asset name, and
/// the post-download hook.
#[derive(Debug)]
pub struct GithubReleaseInstaller {
    pub pattern: String,
    pub hook: AssetHook,
}

impl GithubReleaseInstaller {
    pub fn new(pattern: String, hook: AssetHook) -> (r: Self)
        ensures
            r.pattern@ == pattern@,
            r.hook == hook,
    {
        GithubReleaseInstaller { pattern, hook }
    }
}

/// What an asset install will do: which asset to download, where its bytes
/// land, and every effect in order.
#[derive(Debug)]
pub struct AssetPlan {
    pub asset: Asset,
    pub archive_path: String,
    pub actions: Vec<Action>,
}

impl GithubReleaseInstaller {
    /// Plans the asset install. `MissingRelease` without a release;
    /// `MissingSystemAsset` when no asset matches the pattern, which lets
    /// the strategy fall through to a native installer.
    pub fn plan(&self, info: &PkgInfo, dirs: &Dirs, release: Option<&Release>) -> (r: Result<
        AssetPlan,
        Error,
    >)
        ensures
            ({
                match release {
                    None => r matches Err(e) && e@ == ErrorV::MissingRelease,
                    Some(rel) => {
                        let av = assets_view(rel.assets@);
                        match r {
                            Ok(p) => {
                                let target = path_join_spec(dirs@.pkg_dir, info@.mod_name);
                                let sel = av[first_match_index(av, self.pattern@)];
                                let archive = path_join_spec(target, sel.name);
                                &&& regex_valid(self.pattern@)
                                &&& is_first_match(av, self.pattern@, first_match_index(av, self.pattern@))
                                &&& p.asset@ == sel
                                &&& p.archive_path@ == archive
                                &&& actions_view(p.actions@) == seq![
                                    ActionV::EnsureDir(target),
                                    ActionV::Download { url: sel.url, dest: archive },
                                ].add(hook_actions_spec(self.hook, info@, dirs@, archive, sel.name))
                            },
                            Err(e) => if !regex_valid(self.pattern@) {
                                e@ is External
                            } else {
                                !has_asset_match(av, self.pattern@) && e@
                                    == ErrorV::MissingSystemAsset
                            },
                        }
                    },
                }
            }),
    {
        let rel = match release {
            None => {
                return Err(Error::MissingRelease);
            },
            Some(rel) => rel,
        };
        let asset = match select_asset(rel, self.pattern.as_str()) {
            Ok(a) => a,
            Err(e) => {
                return Err(e);
            },
        };
        let target = path_join(dirs.pkg_dir.as_str(), info.mod_name.as_str());
        let archive = path_join(target.as_str(), asset.name.as_str());
        let hook = hook_actions(&self.hook, info, dirs, archive.as_str(), asset.name.as_str());
        let mut actions: Vec<Action> = Vec::new();
        actions.push(Action::EnsureDir(target.clone()));
        actions.push(
            Action::Download { url: asset.url.clone(), dest: archive.clone() },
        );
        let mut i: usize = 0;
        while i < hook.len()
            invariant
                i <= hook.len(),
                actions@.len() == 2 + i,
                forall|k: int| 0 <= k < i ==> actions@[2 + k]@ == hook@[k]@,
                actions@[0]@ == ActionV::EnsureDir(target@),
                actions@[1]@ == (ActionV::Download { url: asset@.url, dest: archive@ }),
            decreases hook.len() - i,
        {
            let a = clone_action(&hook[i]);
            actions.push(a);
            i = i + 1;
        }
        proof {
            assert(actions_view(actions@) =~= seq![
                ActionV::EnsureDir(target@),
                ActionV::Download { url: asset@.url, dest: archive@ },
            ].add(actions_view(hook@)));
        }
        Ok(AssetPlan { asset, archive_path: archive, actions })
    }
}

/// A command-based install: the program that must be on the system, the
/// effects before the command, the command, and the effects after it.
#[derive(Debug)]
pub struct CommandPlan {
    pub required_prog: String,
    pub pre: Vec<Action>,
    pub cmd: CmdSpec,
    pub post: Vec<Action>,
}

/// `X.Y.Z` without the leading `v`: the form cargo's `--version` takes.
pub open spec fn sem_plain_spec(x: int, y: int, z: int) -> Seq<char> {
    dec_rep(x as nat) + seq!['.'] + dec_rep(y as nat) + seq!['.'] + dec_rep(z as nat)
}

/// Renders `X.Y.Z` without a leading `v`.
fn sem_plain(x: u16, y: u16, z: u16) -> (r: String)
    ensures
        r@ == sem_plain_spec(x as int, y as int, z as int),
{
    proof {
        reveal_strlit(".");
    }
    let mut r = u16_to_dec(x);
    r.append(".");
    r.append(u16_to_dec(y).as_str());
    r.append(".");
    r.append(u16_to_dec(z).as_str());
    proof {
        assert("."@ =~= seq!['.']);
        assert(r@ =~= sem_plain_spec(x as int, y as int, z as int));
    }
    r
}

/// Installs through `cargo install`, pinned to the release's version when
/// its tag parses as a semantic version.
#[derive(Debug, Default)]
pub struct CargoInstaller {}

/// The arguments of the cargo command for this package and release.
pub open spec fn cargo_args_spec(
    info: PkgInfoV,
    dirs: DirsV,
    release: Option<VersionV>,
) -> Seq<Seq<char>> {
    let base = seq!["install"@, "--root"@, dirs.root_dir];
    let versioned = match release {
        Some(VersionV::Sem(x, y, z)) => base + seq!["--version"@, sem_plain_spec(x, y, z)],
        _ => base,
    };
    versioned.push(info.mod_name)
}

/// The version a release denotes, if one is at hand.
pub open spec fn release_version_of(release: Option<&Release>) -> Option<VersionV> {
    match release {
        Some(rel) => Some(parse_spec(rel.tag@)),
        None => None,
    }
}

/// The whole cargo plan, pinned: no effects around the single command.
pub open spec fn cargo_plan_spec(
    info: PkgInfoV,
    dirs: DirsV,
    rv: Option<VersionV>,
    r: CommandPlan,
) -> bool {
    &&& r.required_prog@ == "cargo"@
    &&& r.pre@.len() == 0
    &&& r.post@.len() == 0
    &&& r.cmd@.program == "cargo"@
    &&& r.cmd@.env.len() == 0
    &&& r.cmd@.args == cargo_args_spec(info, dirs, rv)
}

impl CargoInstaller {
    /// Plans the cargo install: `cargo install --root <root>
    /// [--version X.Y.Z] <module>`, requiring cargo on the system.
    pub fn plan(&self, info: &PkgInfo, dirs: &Dirs, release: Option<&Release>) -> (r: CommandPlan)
        ensures
            cargo_plan_spec(info@, dirs@, release_version_of(release), r),
    {
        let mut args: Vec<String> = Vec::new();
        args.push("install".to_owned());
        args.push("--root".to_owned());
        args.push(dirs.root_dir.clone());
        match release {
            Some(rel) => {
                match Version::parse(rel.tag.as_str()) {
                    Version::Sem(x, y, z) => {
                        args.push("--version".to_owned());
                        args.push(sem_plain(x, y, z));
                    },
                    _ => {},
                }
            },
            None => {},
        }
        args.push(info.mod_name.clone());
        proof {
            assert(strings_view(args@) =~= cargo_args_spec(
                info@,
                dirs@,
                match release {
                    Some(rel) => Some(parse_spec(rel.tag@)),
                    None => None,
                },
            ));
        }
        CommandPlan {
            required_prog: "cargo".to_owned(),
            pre: Vec::new(),
            cmd: CmdSpec { program: "cargo".to_owned(), args, env: Vec::new() },
            post: Vec::new(),
        }
    }
}

/// Installs through `go install`, with `GOBIN` pointed at the binary
/// directory.
#[derive(Debug, Default)]
pub struct GoInstaller {}

/// The module-at-version argument of `go install`: the release's rendered
/// version, or `latest`.
pub open spec fn go_target_spec(info: PkgInfoV, release: Option<VersionV>) -> Seq<char> {
    let version = match release {
        Some(v) => render_spec(v),
        None => "latest"@,
    };
    info.mod_name + "@"@ + version
}

/// The whole go plan, pinned: one command with `GOBIN` set.
pub open spec fn go_plan_spec(
    info: PkgInfoV,
    dirs: DirsV,
    rv: Option<VersionV>,
    r: CommandPlan,
) -> bool {
    &&& r.required_prog@ == "go"@
    &&& r.pre@.len() == 0
    &&& r.post@.len() == 0
    &&& r.cmd@.program == "go"@
    &&& r.cmd@.env == seq![EnvVarV { key: "GOBIN"@, value: dirs.bin_dir }]
    &&& r.cmd@.args == seq!["install"@, go_target_spec(info, rv)]
}

impl GoInstaller {
    /// Plans the go install: `go install <module>@<version>` with `GOBIN`
    /// set, requiring go on the system.
    pub fn plan(&self, info: &PkgInfo, dirs: &Dirs, release: Option<&Release>) -> (r: CommandPlan)
        ensures
            go_plan_spec(info@, dirs@, release_version_of(release), r),
    {
        let version = match release {
            Some(rel) => Version::parse(rel.tag.as_str()).render(),
            None => "latest".to_owned(),
        };
        let target = concat3(info.mod_name.as_str(), "@", version.as_str());
        let mut args: Vec<String> = Vec::new();
        args.push("install".to_owned());
        args.push(target);
        let mut env: Vec<EnvVar> = Vec::new();
        env.push(EnvVar { key: "GOBIN".to_owned(), value: dirs.bin_dir.clone() });
        proof {
            assert(strings_view(args@) =~= seq![
                "install"@,
                go_target_spec(info@, release_version_of(release)),
            ]);
            assert(env@.map_values(|e: EnvVar| e@) =~= seq![
                EnvVarV { key: "GOBIN"@, value: dirs@.bin_dir },
            ]);
        }
        let ghost argsv = strings_view(args@);
        let plan = CommandPlan {
            required_prog: "go".to_owned(),
            pre: Vec::new(),
            cmd: CmdSpec { program: "go".to_owned(), args, env },
            post: Vec::new(),
        };
        proof {
            assert(plan.cmd@.args == argsv) by {
                assert(plan.cmd@.args =~= strings_view(plan.cmd.args@));
            }
        }
        plan
    }
}

/// The post-install hook of an npm-based package.
#[derive(Clone, Copy, Debug, PartialEq, Eq, Structural)]
pub enum NpmHook {
    NoHook,
    VscodeLangservers,
}

/// The four language servers that the vscode-langservers-extracted package
/// provides.
pub open spec fn vscode_bins() -> Seq<Seq<char>> {
    seq![
        "vscode-css-language-server"@,
        "vscode-html-language-server"@,
        "vscode-json-language-server"@,
        "vscode-markdown-language-server"@,
    ]
}

/// On install, links each of the four bundled language servers into the
/// binary directory; on uninstall, removes those links.
pub fn vscode_langservers_extracted_callback(
    op: crate::pkg::CallbackOperation,
    info: &PkgInfo,
    dirs: &Dirs,
) -> (r: Vec<Action>)
    ensures
        actions_view(r@) == vscode_hook_spec(op, info@, dirs@),
{
    let bin_root = path_join(
        path_join(dirs.pkg_dir.as_str(), info.name.as_str()).as_str(),
        "bin",
    );
    let mut r: Vec<Action> = Vec::new();
    match op {
        crate::pkg::CallbackOperation::Install => {
            r.push(
                Action::Symlink {
                    original: path_join(bin_root.as_str(), "vscode-css-language-server"),
                    link: path_join(dirs.bin_dir.as_str(), "vscode-css-language-server"),
                },
            );
            r.push(
                Action::Symlink {
                    original: path_join(bin_root.as_str(), "vscode-html-language-server"),
                    link: path_join(dirs.bin_dir.as_str(), "vscode-html-language-server"),
                },
            );
            r.push(
                Action::Symlink {
                    original: path_join(bin_root.as_str(), "vscode-json-language-server"),
                    link: path_join(dirs.bin_dir.as_str(), "vscode-json-language-server"),
                },
            );
            r.push(
                Action::Symlink {
                    original: path_join(bin_root.as_str(), "vscode-markdown-language-server"),
                    link: path_join(dirs.bin_dir.as_str(), "vscode-markdown-language-server"),
                },
            );
        },
        crate::pkg::CallbackOperation::Uninstall => {
            r.push(
                Action::RemoveFileIfExists(
                    path_join(dirs.bin_dir.as_str(), "vscode-css-language-server"),
                ),
            );
            r.push(
                Action::RemoveFileIfExists(
                    path_join(dirs.bin_dir.as_str(), "vscode-html-language-server"),
                ),
            );
            r.push(
                Action::RemoveFileIfExists(
                    path_join(dirs.bin_dir.as_str(), "vscode-json-language-server"),
                ),
            );
            r.push(
                Action::RemoveFileIfExists(
                    path_join(dirs.bin_dir.as_str(), "vscode-markdown-language-server"),
                ),
            );
        },
    }
    proof {
        assert(actions_view(r@) =~= vscode_hook_spec(op, info@, dirs@));
    }
    r
}

/// The first `n` of the hook's actions.
pub open spec fn vscode_hook_prefix(
    op: crate::pkg::CallbackOperation,
    info: PkgInfoV,
    dirs: DirsV,
    n: int,
) -> Seq<ActionV> {
    Seq::new(
        n as nat,
        |k: int|
            match op {
                crate::pkg::CallbackOperation::Install => ActionV::Symlink {
                    original: path_join_spec(
                        path_join_spec(path_join_spec(dirs.pkg_dir, info.name), "bin"@),
                        vscode_bins()[k],
                    ),
                    link: path_join_spec(dirs.bin_dir, vscode_bins()[k]),
                },
                crate::pkg::CallbackOperation::Uninstall => ActionV::RemoveFileIfExists(
                    path_join_spec(dirs.bin_dir, vscode_bins()[k]),
                ),
            },
    )
}

/// The hook's actions: one per bundled language server.
pub open spec fn vscode_hook_spec(
    op: crate::pkg::CallbackOperation,
    info: PkgInfoV,
    dirs: DirsV,
) -> Seq<ActionV> {
    vscode_hook_prefix(op, info, dirs, 4)
}

/// The actions of an npm hook for the given operation.
pub open spec fn npm_hook_spec(
    hook: NpmHook,
    op: crate::pkg::CallbackOperation,
    info: PkgInfoV,
    dirs: DirsV,
) -> Seq<ActionV> {
    match hook {
        NpmHook::NoHook => Seq::empty(),
        NpmHook::VscodeLangservers => vscode_hook_spec(op, info, dirs),
    }
}

/// Dispatches to the npm hook's actions.
pub fn npm_hook_actions(
    hook: &NpmHook,
    op: crate::pkg::CallbackOperation,
    info: &PkgInfo,
    dirs: &Dirs,
) -> (r: Vec<Action>)
    ensures
        actions_view(r@) == npm_hook_spec(*hook, op, info@, dirs@),
{
    match hook {
        NpmHook::NoHook => {
            let r: Vec<Action> = Vec::new();
            proof {
                assert(actions_view(r@) =~= Seq::<ActionV>::empty());
            }
            r
        },
        NpmHook::VscodeLangservers => vscode_langservers_extracted_callback(op, info, dirs),
    }
}

/// Installs through `npm install --global` into the package's own prefix,
/// linking the binary out if npm produced one.
#[derive(Debug)]
pub struct NpmInstaller {
    pub dependencies: Vec<String>,
    pub hook: NpmHook,
}

/// The whole npm plan, pinned: the prefix directory ensured, one command,
/// then the conditional binary link and the hook's effects.
pub open spec fn npm_plan_spec(
    npm: NpmInstaller,
    info: PkgInfoV,
    dirs: DirsV,
    rv: Option<VersionV>,
    r: CommandPlan,
) -> bool {
    let target = path_join_spec(dirs.pkg_dir, info.mod_name);
    let name_arg = match rv {
        Some(v) => info.mod_name + "@"@ + render_spec(v),
        None => info.mod_name,
    };
    &&& r.required_prog@ == "npm"@
    &&& actions_view(r.pre@) == seq![ActionV::EnsureDir(target)]
    &&& r.cmd@.program == "npm"@
    &&& r.cmd@.env.len() == 0
    &&& r.cmd@.args == seq!["install"@, "--global"@, "--prefix"@, target, name_arg].add(
        strings_view(npm.dependencies@),
    )
    &&& actions_view(r.post@) == seq![
        ActionV::SymlinkIfExists {
            original: path_join_spec(path_join_spec(target, "bin"@), info.bin_name),
            link: path_join_spec(dirs.bin_dir, info.bin_name),
        },
    ].add(npm_hook_spec(npm.hook, crate::pkg::CallbackOperation::Install, info, dirs))
}

impl NpmInstaller {
    pub fn new(dependencies: Vec<String>, hook: NpmHook) -> (r: Self)
        ensures
            r.dependencies == dependencies,
            r.hook == hook,
    {
        NpmInstaller { dependencies, hook }
    }

    /// Plans the npm install: ensure the prefix directory, run
    /// `npm install --global --prefix <dir> <module>[@version] <deps..>`,
    /// then link the binary if it exists and run the hook.
    pub fn plan(&self, info: &PkgInfo, dirs: &Dirs, release: Option<&Release>) -> (r: CommandPlan)
        ensures
            npm_plan_spec(*self, info@, dirs@, release_version_of(release), r),
    {
        let target = path_join(dirs.pkg_dir.as_str(), info.mod_name.as_str());
        let name_arg = match release {
            Some(rel) => {
                let v = Version::parse(rel.tag.as_str()).render();
                concat3(info.mod_name.as_str(), "@", v.as_str())
            },
            None => info.mod_name.clone(),
        };
        let ghost na = name_arg@;
        let mut args: Vec<String> = Vec::new();
        args.push("install".to_owned());
        args.push("--global".to_owned());
        args.push("--prefix".to_owned());
        args.push(target.clone());
        args.push(name_arg);
        let mut i: usize = 0;
        while i < self.dependencies.len()
            invariant
                i <= self.dependencies.len(),
                args@.len() == 5 + i,
                args@[0]@ == "install"@,
                args@[1]@ == "--global"@,
                args@[2]@ == "--prefix"@,
                args@[3]@ == path_join_spec(dirs@.pkg_dir, info@.mod_name),
                args@[4]@ == na,
                forall|k: int| 0 <= k < i ==> args@[5 + k]@ == self.dependencies@[k]@,
            decreases self.dependencies.len() - i,
        {
            args.push(self.dependencies[i].clone());
            i = i + 1;
        }
        proof {
            assert(strings_view(args@) =~= seq![
                "install"@,
                "--global"@,
                "--prefix"@,
                path_join_spec(dirs@.pkg_dir, info@.mod_name),
                na,
            ].add(strings_view(self.dependencies@)));
        }
        let mut pre: Vec<Action> = Vec::new();
        pre.push(Action::EnsureDir(target.clone()));
        let mut post: Vec<Action> = Vec::new();
        post.push(
            Action::SymlinkIfExists {
                original: path_join(
                    path_join(target.as_str(), "bin").as_str(),
                    info.bin_name.as_str(),
                ),
                link: path_join(dirs.bin_dir.as_str(), info.bin_name.as_str()),
            },
        );
        let hook = npm_hook_actions(&self.hook, crate::pkg::CallbackOperation::Install, info, dirs);
        let mut j: usize = 0;
        while j < hook.len()
            invariant
                j <= hook.len(),
                post@.len() == 1 + j,
                post@[0]@ == (ActionV::SymlinkIfExists {
                    original: path_join_spec(
                        path_join_spec(path_join_spec(dirs@.pkg_dir, info@.mod_name), "bin"@),
                        info@.bin_name,
                    ),
                    link: path_join_spec(dirs@.bin_dir, info@.bin_name),
                }),
                forall|k: int| 0 <= k < j ==> post@[1 + k]@ == hook@[k]@,
            decreases hook.len() - j,
        {
            post.push(clone_action(&hook[j]));
            j = j + 1;
        }
        proof {
            let target = path_join_spec(dirs@.pkg_dir, info@.mod_name);
            assert(actions_view(pre@) =~= seq![ActionV::EnsureDir(target)]);
            assert(actions_view(post@) =~= seq![
                ActionV::SymlinkIfExists {
                    original: path_join_spec(path_join_spec(target, "bin"@), info@.bin_name),
                    link: path_join_spec(dirs@.bin_dir, info@.bin_name),
                },
            ].add(actions_view(hook@)));
        }
        CommandPlan {
            required_prog: "npm".to_owned(),
            pre,
            cmd: CmdSpec { program: "npm".to_owned(), args, env: Vec::new() },
            post,
        }
    }

    /// The dependencies handed to npm alongside the package.
    pub fn dependencies(&self) -> (r: &Vec<String>)
        ensures
            strings_view(r@) == strings_view(self.dependencies@),
    {
        &self.dependencies
    }

    /// The uninstall effects: the hook's uninstall actions, then the
    /// default removal of the binary and the package directory.
    pub fn uninstall_actions(&self, info: &PkgInfo, dirs: &Dirs) -> (r: Vec<Action>)
        ensures
            actions_view(r@) == npm_hook_spec(
                self.hook,
                crate::pkg::CallbackOperation::Uninstall,
                info@,
                dirs@,
            ).add(default_uninstall_spec(info@, dirs@)),
    {
        let mut r = npm_hook_actions(
            &self.hook,
            crate::pkg::CallbackOperation::Uninstall,
            info,
            dirs,
        );
        let ghost base = actions_view(r@);
        let mut tail = default_uninstall_actions(info, dirs);
        let ghost n0 = r@.len();
        let mut j: usize = 0;
        while j < tail.len()
            invariant
                j <= tail.len(),
                r@.len() == n0 + j,
                actions_view(r@.subrange(0, n0 as int)) == base,
                forall|k: int| 0 <= k < j ==> r@[n0 + k]@ == tail@[k]@,
            decreases tail.len() - j,
        {
            r.push(clone_action(&tail[j]));
            j = j + 1;
        }
        proof {
            assert(actions_view(r@) =~= base.add(actions_view(tail@)));
        }
        r
    }
}

/// Installs through pip into a per-package virtual environment.
#[derive(Debug)]
pub struct PIP {
    pub dependencies: Vec<String>,
}

/// The whole pip plan, pinned: the package directory and virtual
/// environment ensured, one pip command, then the binary link.
pub open spec fn pip_plan_spec(
    pip: PIP,
    info: PkgInfoV,
    dirs: DirsV,
    rv: Option<VersionV>,
    r: CommandPlan,
) -> bool {
    let target = path_join_spec(dirs.pkg_dir, info.mod_name);
    let venv = path_join_spec(target, "venv"@);
    let pip_path = path_join_spec(path_join_spec(venv, "bin"@), "pip"@);
    let name_arg = match rv {
        Some(v) => info.mod_name + "=="@ + render_spec(v),
        None => info.mod_name,
    };
    &&& r.required_prog@ == "python"@
    &&& actions_view(r.pre@) == seq![
        ActionV::EnsureDir(target),
        ActionV::RunIfMissing {
            path: venv,
            cmd: CmdSpecV { program: "python"@, args: seq!["-m"@, "venv"@, venv], env: Seq::empty() },
        },
    ]
    &&& r.cmd@.program == pip_path
    &&& r.cmd@.env.len() == 0
    &&& r.cmd@.args == seq!["install"@, "--upgrade"@, name_arg].add(
        strings_view(pip.dependencies@),
    )
    &&& actions_view(r.post@) == seq![
        ActionV::Symlink {
            original: path_join_spec(path_join_spec(venv, "bin"@), info.bin_name),
            link: path_join_spec(dirs.bin_dir, info.bin_name),
        },
    ]
}

impl PIP {
    pub fn new(dependencies: Vec<String>) -> (r: Self)
        ensures
            r.dependencies == dependencies,
    {
        PIP { dependencies }
    }

    /// Plans the pip install: ensure the package directory, create the
    /// virtual environment if missing, `pip install --upgrade
    /// <module>[==version] <deps..>`, then link the binary out of the
    /// environment. Requires python on the system.
    pub fn plan(&self, info: &PkgInfo, dirs: &Dirs, release: Option<&Release>) -> (r: CommandPlan)
        ensures
            pip_plan_spec(*self, info@, dirs@, release_version_of(release), r),
    {
        let target = path_join(dirs.pkg_dir.as_str(), info.mod_name.as_str());
        let venv = path_join(target.as_str(), "venv");
        let venv_bin = path_join(venv.as_str(), "bin");
        let pip_path = path_join(venv_bin.as_str(), "pip");
        let name_arg = match release {
            Some(rel) => {
                let v = Version::parse(rel.tag.as_str()).render();
                concat3(info.mod_name.as_str(), "==", v.as_str())
            },
            None => info.mod_name.clone(),
        };
        let ghost na = name_arg@;
        let mut venv_args: Vec<String> = Vec::new();
        venv_args.push("-m".to_owned());
        venv_args.push("venv".to_owned());
        venv_args.push(venv.clone());
        let venv_cmd = CmdSpec { program: "python".to_owned(), args: venv_args, env: Vec::new() };
        let mut pre: Vec<Action> = Vec::new();
        pre.push(Action::EnsureDir(target.clone()));
        pre.push(Action::RunIfMissing { path: venv.clone(), cmd: venv_cmd });
        let mut args: Vec<String> = Vec::new();
        args.push("install".to_owned());
        args.push("--upgrade".to_owned());
        args.push(name_arg);
        let mut i: usize = 0;
        while i < self.dependencies.len()
            invariant
                i <= self.dependencies.len(),
                args@.len() == 3 + i,
                args@[0]@ == "install"@,
                args@[1]@ == "--upgrade"@,
                args@[2]@ == na,
                forall|k: int| 0 <= k < i ==> args@[3 + k]@ == self.dependencies@[k]@,
            decreases self.dependencies.len() - i,
        {
            args.push(self.dependencies[i].clone());
            i = i + 1;
        }
        let mut post: Vec<Action> = Vec::new();
        post.push(
            Action::Symlink {
                original: path_join(venv_bin.as_str(), info.bin_name.as_str()),
                link: path_join(dirs.bin_dir.as_str(), info.bin_name.as_str()),
            },
        );
        proof {
            let targetv = path_join_spec(dirs@.pkg_dir, info@.mod_name);
            let venvv = path_join_spec(targetv, "venv"@);
            assert(actions_view(pre@) =~= seq![
                ActionV::EnsureDir(targetv),
                ActionV::RunIfMissing {
                    path: venvv,
                    cmd: CmdSpecV {
                        program: "python"@,
                        args: seq!["-m"@, "venv"@, venvv],
                        env: Seq::empty(),
                    },
                },
            ]) by {
                assert(pre@[1]@->RunIfMissing_cmd.args =~= seq!["-m"@, "venv"@, venvv]);
                assert(pre@[1]@->RunIfMissing_cmd.env =~= Seq::<EnvVarV>::empty());
                assert(pre@[1]@->RunIfMissing_cmd =~= CmdSpecV {
                    program: "python"@,
                    args: seq!["-m"@, "venv"@, venvv],
                    env: Seq::empty(),
                });
            }
            assert(strings_view(args@) =~= seq!["install"@, "--upgrade"@, na].add(
                strings_view(self.dependencies@),
            ));
            assert(actions_view(post@) =~= seq![
                ActionV::Symlink {
                    original: path_join_spec(path_join_spec(venvv, "bin"@), info@.bin_name),
                    link: path_join_spec(dirs@.bin_dir, info@.bin_name),
                },
            ]);
        }
        CommandPlan { required_prog: "python".to_owned(), pre, cmd: CmdSpec { program: pip_path, args, env: Vec::new() }, post }
    }
}

/// The default uninstall effects: remove the installed binary and the
/// package's data directory, each if present.
pub open spec fn default_uninstall_spec(info: PkgInfoV, dirs: DirsV) -> Seq<ActionV> {
    seq![
        ActionV::RemoveFileIfExists(path_join_spec(dirs.bin_dir, info.bin_name)),
        ActionV::RemoveDirIfExists(path_join_spec(dirs.pkg_dir, info.mod_name)),
    ]
}

/// Removes the installed binary and the package directory, each if
/// present.
pub fn default_uninstall_actions(info: &PkgInfo, dirs: &Dirs) -> (r: Vec<Action>)
    ensures
        actions_view(r@) == default_uninstall_spec(info@, dirs@),
{
    let mut r: Vec<Action> = Vec::new();
    r.push(Action::RemoveFileIfExists(path_join(dirs.bin_dir.as_str(), info.bin_name.as_str())));
    r.push(Action::RemoveDirIfExists(path_join(dirs.pkg_dir.as_str(), info.mod_name.as_str())));
    proof {
        assert(actions_view(r@) =~= default_uninstall_spec(info@, dirs@));
    }
    r
}

/// A native installer: delegates to an externally installed package
/// manager or toolchain.
#[derive(Debug)]
pub enum NativeInstaller {
    Cargo(CargoInstaller),
    Go(GoInstaller),
    Npm(NpmInstaller),
    Pip(PIP),
}

/// The uninstall effects of a native installer: the npm hook's uninstall
/// actions first for npm, then the default removal.
pub open spec fn native_uninstall_spec(
    n: NativeInstaller,
    info: PkgInfoV,
    dirs: DirsV,
) -> Seq<ActionV> {
    match n {
        NativeInstaller::Npm(npm) => npm_hook_spec(
            npm.hook,
            crate::pkg::CallbackOperation::Uninstall,
            info,
            dirs,
        ).add(default_uninstall_spec(info, dirs)),
        _ => default_uninstall_spec(info, dirs),
    }
}

impl NativeInstaller {
    /// Plans the native install by delegating to the concrete installer.
    pub fn plan(&self, info: &PkgInfo, dirs: &Dirs, release: Option<&Release>) -> (r: CommandPlan)
        ensures
            match self {
                NativeInstaller::Cargo(_) => cargo_plan_spec(
                    info@,
                    dirs@,
                    release_version_of(release),
                    r,
                ),
                NativeInstaller::Go(_) => go_plan_spec(info@, dirs@, release_version_of(release), r),
                NativeInstaller::Npm(n) => npm_plan_spec(
                    *n,
                    info@,
                    dirs@,
                    release_version_of(release),
                    r,
                ),
                NativeInstaller::Pip(p) => pip_plan_spec(
                    *p,
                    info@,
                    dirs@,
                    release_version_of(release),
                    r,
                ),
            },
    {
        match self {
            NativeInstaller::Cargo(c) => c.plan(info, dirs, release),
            NativeInstaller::Go(g) => g.plan(info, dirs, release),
            NativeInstaller::Npm(n) => n.plan(info, dirs, release),
            NativeInstaller::Pip(p) => p.plan(info, dirs, release),
        }
    }

    /// The uninstall effects of this installer.
    pub fn uninstall_actions(&self, info: &PkgInfo, dirs: &Dirs) -> (r: Vec<Action>)
        ensures
            actions_view(r@) == native_uninstall_spec(*self, info@, dirs@),
    {
        match self {
            NativeInstaller::Npm(n) => n.uninstall_actions(info, dirs),
            _ => default_uninstall_actions(info, dirs),
        }
    }
}

} // verus!
