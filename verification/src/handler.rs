//! The reconciler: the decisions behind the user commands. The binary
//! performs fetches, attempts and prints; every decision about what they
//! mean is taken here.

use vstd::prelude::*;
use crate::manifest::{has_name, first_name_index, upsert_spec, Entry, EntryV, Manifest};
use crate::pkg::{Dirs, Package};
use crate::registry::{reg_has, PackageRegistry};
use crate::release::Release;
use crate::text::{path_join, path_join_spec, str_eq};
use crate::version::{render_spec, Version};

verus! {

/// The per-run paths: configuration file, binary and package directories,
/// and the manifest file, all under one root.
#[derive(Debug)]
pub struct Handler {
    pub config_filepath: String,
    pub bin_dir: String,
    pub pkg_dir: String,
    pub dirs: Dirs,
    pub manifest_path: String,
}

impl Handler {
    /// Lays the paths out under the root: `config.toml`, `bin`, `pkg` and
    /// `packages.json`.
    pub fn new(root: String) -> (h: Self)
        ensures
            h.config_filepath@ == path_join_spec(root@, "config.toml"@),
            h.bin_dir@ == path_join_spec(root@, "bin"@),
            h.pkg_dir@ == path_join_spec(root@, "pkg"@),
            h.manifest_path@ == path_join_spec(root@, "packages.json"@),
            h.dirs@.root_dir == root@,
            h.dirs@.bin_dir == h.bin_dir@,
            h.dirs@.pkg_dir == h.pkg_dir@,
    {
        let cfg = path_join(root.as_str(), "config.toml");
        let bin_dir = path_join(root.as_str(), "bin");
        let pkg_dir = path_join(root.as_str(), "pkg");
        let manifest_path = path_join(root.as_str(), "packages.json");
        let dirs = Dirs { root_dir: root, bin_dir: bin_dir.clone(), pkg_dir: pkg_dir.clone() };
        Handler { config_filepath: cfg, bin_dir, pkg_dir, dirs, manifest_path }
    }
}

/// What an explicit `install <name>` should do.
#[derive(Clone, Copy, Debug, PartialEq, Eq, Structural)]
pub enum InstallDecision {
    /// The name is not in the catalog: a fatal error.
    UnknownPackage,
    /// Already installed: tell the user to update instead; no work, no
    /// manifest change.
    AlreadyInstalled,
    /// Install it.
    Proceed,
}

/// Decides an explicit install: unknown names are fatal, installed
/// packages are left alone, the rest proceed.
pub fn install_decision(manifest: &Manifest, registry: &PackageRegistry, name: &str) -> (r:
    InstallDecision)
    ensures
        r == (if !reg_has(registry.packages_spec(), name@) {
            InstallDecision::UnknownPackage
        } else if has_name(manifest@, name@) {
            InstallDecision::AlreadyInstalled
        } else {
            InstallDecision::Proceed
        }),
{
    if registry.get(name).is_none() {
        InstallDecision::UnknownPackage
    } else if manifest.installed(name) {
        InstallDecision::AlreadyInstalled
    } else {
        InstallDecision::Proceed
    }
}

/// What one ensure-installed name should do. An unknown name here is a
/// fatal configuration error, surfaced before any work proceeds.
pub fn ensure_decision(manifest: &Manifest, registry: &PackageRegistry, name: &str) -> (r:
    InstallDecision)
    ensures
        r == (if !reg_has(registry.packages_spec(), name@) {
            InstallDecision::UnknownPackage
        } else if has_name(manifest@, name@) {
            InstallDecision::AlreadyInstalled
        } else {
            InstallDecision::Proceed
        }),
{
    install_decision(manifest, registry, name)
}

/// What `update <name>` or `uninstall <name>` should do.
#[derive(Clone, Copy, Debug, PartialEq, Eq, Structural)]
pub enum TargetDecision {
    /// The name is not in the catalog: a fatal error.
    UnknownPackage,
    /// Not installed: a warning and a no-op; the manifest is unchanged.
    NotInstalled,
    /// Go ahead.
    Proceed,
}

/// Decides an update: on a package that is not installed it is a no-op
/// warning, not an error, and nothing touches the manifest.
pub fn update_decision(manifest: &Manifest, registry: &PackageRegistry, name: &str) -> (r:
    TargetDecision)
    ensures
        r == (if !reg_has(registry.packages_spec(), name@) {
            TargetDecision::UnknownPackage
        } else if !has_name(manifest@, name@) {
            TargetDecision::NotInstalled
        } else {
            TargetDecision::Proceed
        }),
{
    if registry.get(name).is_none() {
        TargetDecision::UnknownPackage
    } else if !manifest.installed(name) {
        TargetDecision::NotInstalled
    } else {
        TargetDecision::Proceed
    }
}

/// Decides an uninstall, by the same rule as an update.
pub fn uninstall_decision(manifest: &Manifest, registry: &PackageRegistry, name: &str) -> (r:
    TargetDecision)
    ensures
        r == (if !reg_has(registry.packages_spec(), name@) {
            TargetDecision::UnknownPackage
        } else if !has_name(manifest@, name@) {
            TargetDecision::NotInstalled
        } else {
            TargetDecision::Proceed
        }),
{
    update_decision(manifest, registry, name)
}

/// Records a finished install: the manifest gains (or replaces in place)
/// the entry for this package at this version.
pub fn record_install(manifest: &mut Manifest, name: &str, version: Version)
    ensures
        final(manifest)@ == upsert_spec(
            old(manifest)@,
            EntryV { name: name@, version: version@ },
        ),
        has_name(final(manifest)@, name@),
        old(manifest).wf() ==> final(manifest).wf(),
{
    let entry = Entry::new(name.to_owned(), version);
    proof {
        assert(entry@ =~= EntryV { name: name@, version: entry@.version });
    }
    manifest.upsert(entry);
}

/// What checking one installed entry found.
#[derive(Debug)]
pub enum CheckStatus {
    /// The latest release bears exactly the rendered installed version.
    UpToDate,
    /// The latest release bears a different tag.
    Outdated { latest: String },
    /// The provider reported no release for the repository.
    NoRelease,
    /// The provider failed; its message.
    FetchError(String),
}

/// Classifies one entry against the outcome of its release fetch: up to
/// date exactly when the latest tag equals the installed version's
/// rendered form — string equality, not semantic order.
pub fn check_entry(entry: &Entry, fetched: &Result<Option<Release>, String>) -> (r: CheckStatus)
    ensures
        match fetched {
            Ok(Some(rel)) => if rel.tag@ == render_spec(entry@.version) {
                r is UpToDate
            } else {
                r matches CheckStatus::Outdated { latest } && latest@ == rel.tag@
            },
            Ok(None) => r is NoRelease,
            Err(m) => r matches CheckStatus::FetchError(msg) && msg@ == m@,
        },
{
    match fetched {
        Ok(Some(rel)) => {
            let current = entry.version.render();
            if str_eq(rel.tag.as_str(), current.as_str()) {
                CheckStatus::UpToDate
            } else {
                CheckStatus::Outdated { latest: rel.tag.clone() }
            }
        },
        Ok(None) => CheckStatus::NoRelease,
        Err(m) => CheckStatus::FetchError(m.clone()),
    }
}

/// One printable check result: whether the entry is up to date, and the
/// line to print for it.
#[derive(Debug)]
pub struct CheckRow {
    pub up_to_date: bool,
    pub line: String,
}

/// The mathematical value of a `CheckRow`.
#[verifier::ext_equal]
pub struct CheckRowV {
    pub up_to_date: bool,
    pub line: Seq<char>,
}

impl View for CheckRow {
    type V = CheckRowV;

    open spec fn view(&self) -> CheckRowV {
        CheckRowV { up_to_date: self.up_to_date, line: self.line@ }
    }
}

/// The rows with the given flag, in their original order.
pub open spec fn rows_with(rs: Seq<CheckRowV>, flag: bool) -> Seq<CheckRowV>
    decreases rs.len(),
{
    if rs.len() == 0 {
        rs
    } else {
        let rest = rows_with(rs.drop_last(), flag);
        if rs.last().up_to_date == flag {
            rest.push(rs.last())
        } else {
            rest
        }
    }
}

/// Orders check results for printing: the entries needing attention
/// first, the up-to-date ones after, each group in its original order —
/// a stable partition by the flag.
pub fn sort_check_rows(rows: Vec<CheckRow>) -> (r: Vec<CheckRow>)
    ensures
        r@.map_values(|c: CheckRow| c@) == rows_with(
            rows@.map_values(|c: CheckRow| c@),
            false,
        ).add(rows_with(rows@.map_values(|c: CheckRow| c@), true)),
{
    let ghost rv = rows@.map_values(|c: CheckRow| c@);
    let n = rows.len();
    let mut out: Vec<CheckRow> = Vec::new();
    let mut i: usize = 0;
    while i < n
        invariant
            n == rows.len(),
            rv == rows@.map_values(|c: CheckRow| c@),
            i <= n,
            out@.map_values(|c: CheckRow| c@) == rows_with(rv.subrange(0, i as int), false),
        decreases n - i,
    {
        proof {
            assert(rv.subrange(0, i + 1).drop_last() =~= rv.subrange(0, i as int));
            assert(rv.subrange(0, i + 1).last() == rv[i as int]);
            assert(rv[i as int] == rows@[i as int]@);
        }
        if !rows[i].up_to_date {
            out.push(CheckRow { up_to_date: rows[i].up_to_date, line: rows[i].line.clone() });
            proof {
                assert(out@.map_values(|c: CheckRow| c@) =~= rows_with(
                    rv.subrange(0, i + 1),
                    false,
                ));
            }
        } else {
            proof {
                assert(out@.map_values(|c: CheckRow| c@) =~= rows_with(
                    rv.subrange(0, i + 1),
                    false,
                ));
            }
        }
        i = i + 1;
    }
    proof {
        assert(rv.subrange(0, n as int) =~= rv);
    }
    let ghost firsts = out@.map_values(|c: CheckRow| c@);
    proof {
        assert(firsts.add(rows_with(rv.subrange(0, 0), true)) =~= firsts);
    }
    let mut j: usize = 0;
    while j < n
        invariant
            n == rows.len(),
            rv == rows@.map_values(|c: CheckRow| c@),
            j <= n,
            firsts == rows_with(rv, false),
            out@.map_values(|c: CheckRow| c@) == firsts.add(
                rows_with(rv.subrange(0, j as int), true),
            ),
        decreases n - j,
    {
        proof {
            assert(rv.subrange(0, j + 1).drop_last() =~= rv.subrange(0, j as int));
            assert(rv.subrange(0, j + 1).last() == rv[j as int]);
            assert(rv[j as int] == rows@[j as int]@);
        }
        if rows[j].up_to_date {
            let ghost prevout = out@;
            out.push(CheckRow { up_to_date: rows[j].up_to_date, line: rows[j].line.clone() });
            proof {
                assert(out@ == prevout.push(out@.last()));
                assert(out@.last()@ =~= rv[j as int]);
                assert(rv[j as int].up_to_date == true);
                assert(rows_with(rv.subrange(0, j + 1), true) == rows_with(
                    rv.subrange(0, j as int),
                    true,
                ).push(rv[j as int]));
                let rhs = firsts.add(rows_with(rv.subrange(0, j + 1), true));
                assert(prevout.map_values(|c: CheckRow| c@) == firsts.add(
                    rows_with(rv.subrange(0, j as int), true),
                ));
                assert(prevout.map_values(|c: CheckRow| c@).len() == prevout.len());
                assert(out@.len() == rhs.len());
                assert forall|k: int| 0 <= k < out@.len() implies out@.map_values(
                    |c: CheckRow| c@,
                )[k] == rhs[k] by {
                    assert(out@.map_values(|c: CheckRow| c@)[k] == out@[k]@);
                    if k < prevout.len() {
                        assert(out@[k] == prevout[k]);
                        assert(prevout.map_values(|c: CheckRow| c@)[k] == prevout[k]@);
                        assert(prevout.map_values(|c: CheckRow| c@)[k] == firsts.add(
                            rows_with(rv.subrange(0, j as int), true),
                        )[k]);
                    } else {
                        assert(out@[k] == out@.last());
                        assert(rhs[k] == rows_with(rv.subrange(0, j + 1), true)[k - firsts.len()]);
                        assert(rhs[k] == rv[j as int]);
                    }
                }
                assert(out@.map_values(|c: CheckRow| c@) =~= rhs);
            }
        } else {
            proof {
                assert(out@.map_values(|c: CheckRow| c@) =~= firsts.add(
                    rows_with(rv.subrange(0, j + 1), true),
                ));
            }
        }
        j = j + 1;
    }
    proof {
        assert(rv.subrange(0, n as int) =~= rv);
    }
    out
}

/// One row of the package listing.
#[derive(Debug)]
pub struct ListRow {
    pub installed: bool,
    pub name: String,
    pub version: Option<Version>,
}

/// The mathematical value of a `ListRow`.
#[verifier::ext_equal]
pub struct ListRowV {
    pub installed: bool,
    pub name: Seq<char>,
    pub version: Option<crate::version::VersionV>,
}

impl View for ListRow {
    type V = ListRowV;

    open spec fn view(&self) -> ListRowV {
        ListRowV {
            installed: self.installed,
            name: self.name@,
            version: match &self.version {
                Some(v) => Some(v@),
                None => None,
            },
        }
    }
}

/// The listing row for one catalog name against the manifest.
pub open spec fn row_spec(m: Seq<EntryV>, name: Seq<char>) -> ListRowV {
    if has_name(m, name) {
        ListRowV {
            installed: true,
            name: name,
            version: Some(m[first_name_index(m, name)].version),
        }
    } else {
        ListRowV { installed: false, name: name, version: None }
    }
}

/// The rows of the catalog's packages with the given installed flag, in
/// catalog order.
pub open spec fn list_rows_with(
    ps: Seq<Package>,
    m: Seq<EntryV>,
    installed: bool,
) -> Seq<ListRowV>
    decreases ps.len(),
{
    if ps.len() == 0 {
        Seq::empty()
    } else {
        let rest = list_rows_with(ps.drop_last(), m, installed);
        let row = row_spec(m, ps.last().info_spec().name);
        if row.installed == installed {
            rest.push(row)
        } else {
            rest
        }
    }
}

/// The package listing: every catalog entry (all of them with `all`, only
/// the installed ones otherwise), installed packages first, each group in
/// catalog order.
pub fn list_rows(registry: &PackageRegistry, manifest: &Manifest, all: bool) -> (r: Vec<ListRow>)
    ensures
        ({
            let ps = registry.packages_spec();
            let installed_rows = list_rows_with(ps, manifest@, true);
            r@.map_values(|x: ListRow| x@) == if all {
                installed_rows.add(list_rows_with(ps, manifest@, false))
            } else {
                installed_rows
            }
        }),
{
    let ghost ps = registry.packages_spec();
    let n = registry.len();
    let mut out: Vec<ListRow> = Vec::new();
    let mut i: usize = 0;
    while i < n
        invariant
            n == registry.packages_spec().len(),
            ps == registry.packages_spec(),
            i <= n,
            out@.map_values(|x: ListRow| x@) == list_rows_with(
                ps.subrange(0, i as int),
                manifest@,
                true,
            ),
        decreases n - i,
    {
        let pkg = registry.at(i);
        proof {
            assert(ps.subrange(0, i + 1).drop_last() =~= ps.subrange(0, i as int));
            assert(ps.subrange(0, i + 1).last() == ps[i as int]);
        }
        match manifest.get(pkg.name().as_str()) {
            Some(entry) => {
                out.push(
                    ListRow {
                        installed: true,
                        name: pkg.name().clone(),
                        version: Some(entry.version.clone()),
                    },
                );
                proof {
                    assert(row_spec(manifest@, ps[i as int].info_spec().name).installed);
                    assert(out@.map_values(|x: ListRow| x@) =~= list_rows_with(
                        ps.subrange(0, i + 1),
                        manifest@,
                        true,
                    ));
                }
            },
            None => {
                proof {
                    assert(!row_spec(manifest@, ps[i as int].info_spec().name).installed);
                    assert(out@.map_values(|x: ListRow| x@) =~= list_rows_with(
                        ps.subrange(0, i + 1),
                        manifest@,
                        true,
                    ));
                }
            },
        }
        i = i + 1;
    }
    proof {
        assert(ps.subrange(0, n as int) =~= ps);
    }
    if !all {
        return out;
    }
    let ghost firsts = out@.map_values(|x: ListRow| x@);
    let mut j: usize = 0;
    while j < n
        invariant
            n == registry.packages_spec().len(),
            ps == registry.packages_spec(),
            j <= n,
            firsts == list_rows_with(ps, manifest@, true),
            out@.map_values(|x: ListRow| x@) == firsts.add(
                list_rows_with(ps.subrange(0, j as int), manifest@, false),
            ),
        decreases n - j,
    {
        let pkg = registry.at(j);
        proof {
            assert(ps.subrange(0, j + 1).drop_last() =~= ps.subrange(0, j as int));
            assert(ps.subrange(0, j + 1).last() == ps[j as int]);
        }
        if !manifest.installed(pkg.name().as_str()) {
            let ghost prevout = out@;
            out.push(ListRow { installed: false, name: pkg.name().clone(), version: None });
            proof {
                let row = row_spec(manifest@, ps[j as int].info_spec().name);
                assert(!row.installed);
                assert(out@ == prevout.push(out@.last()));
                assert(out@.last()@ =~= row);
                assert(list_rows_with(ps.subrange(0, j + 1), manifest@, false) == list_rows_with(
                    ps.subrange(0, j as int),
                    manifest@,
                    false,
                ).push(row));
                let rhs = firsts.add(list_rows_with(ps.subrange(0, j + 1), manifest@, false));
                assert(prevout.map_values(|x: ListRow| x@) == firsts.add(
                    list_rows_with(ps.subrange(0, j as int), manifest@, false),
                ));
                assert(prevout.map_values(|x: ListRow| x@).len() == prevout.len());
                assert(out@.len() == rhs.len());
                assert forall|k: int| 0 <= k < out@.len() implies out@.map_values(
                    |x: ListRow| x@,
                )[k] == rhs[k] by {
                    assert(out@.map_values(|x: ListRow| x@)[k] == out@[k]@);
                    if k < prevout.len() {
                        assert(out@[k] == prevout[k]);
                        assert(prevout.map_values(|x: ListRow| x@)[k] == prevout[k]@);
                        assert(prevout.map_values(|x: ListRow| x@)[k] == firsts.add(
                            list_rows_with(ps.subrange(0, j as int), manifest@, false),
                        )[k]);
                    } else {
                        assert(out@[k] == out@.last());
                        assert(rhs[k] == list_rows_with(ps.subrange(0, j + 1), manifest@, false)[k
                            - firsts.len()]);
                        assert(rhs[k] == row);
                    }
                }
                assert(out@.map_values(|x: ListRow| x@) =~= rhs);
            }
        } else {
            proof {
                assert(row_spec(manifest@, ps[j as int].info_spec().name).installed);
                assert(out@.map_values(|x: ListRow| x@) =~= firsts.add(
                    list_rows_with(ps.subrange(0, j + 1), manifest@, false),
                ));
            }
        }
        j = j + 1;
    }
    proof {
        assert(ps.subrange(0, n as int) =~= ps);
    }
    out
}

} // verus!
