//! The catalog: every installable package, in three groups, built once
//! per run for the reported platform.

use vstd::prelude::*;
use crate::config::Config;
use crate::error::{Error, ErrorV};
use crate::pkg::Package;
use crate::platform::Platform;
use crate::registry::{reg_has, reg_index, PackageRegistry};
use crate::text::{concat2, str_eq};

pub mod langservers;
pub mod linters;
pub mod misc;

verus! {

/// The names of the packages, in catalog order.
pub open spec fn package_names(ps: Seq<Package>) -> Seq<Seq<char>> {
    ps.map_values(|p: Package| p.info_spec().name)
}

/// The asset pattern for an x86-64 Linux system, by libc flavour; `None`
/// on any other platform.
pub open spec fn musl_gnu_pattern_spec(pf: Platform, musl: Seq<char>, gnu: Seq<char>) -> Option<
    Seq<char>,
> {
    if pf.os is Linux && pf.arch is X86_64 && pf.libc is Musl {
        Some(musl)
    } else if pf.os is Linux && pf.arch is X86_64 && pf.libc is Gnu {
        Some(gnu)
    } else {
        None
    }
}

/// Picks the musl or gnu pattern on x86-64 Linux.
pub fn pick_musl_gnu(pf: &Platform, musl: &str, gnu: &str) -> (r: Option<String>)
    ensures
        match r {
            Some(s) => musl_gnu_pattern_spec(*pf, musl@, gnu@) == Some(s@),
            None => musl_gnu_pattern_spec(*pf, musl@, gnu@) is None,
        },
{
    match (pf.os, pf.arch, pf.libc) {
        (crate::platform::Os::Linux, crate::platform::Arch::X86_64, crate::platform::Libc::Musl) => Some(
            musl.to_owned(),
        ),
        (crate::platform::Os::Linux, crate::platform::Arch::X86_64, crate::platform::Libc::Gnu) => Some(
            gnu.to_owned(),
        ),
        _ => None,
    }
}

/// The asset-name pattern for the named package on this platform, for the
/// packages installed from release assets: an error names an unknown
/// package or an undetermined platform.
pub open spec fn asset_regex_spec(name: Seq<char>, pf: Platform) -> Option<Option<Seq<char>>> {
    if name == "rust-analyzer"@ {
        Some(
            musl_gnu_pattern_spec(
                pf,
                "rust-analyzer-x86_64-unknown-linux-musl.gz"@,
                "rust-analyzer-x86_64-unknown-linux-gnu.gz"@,
            ),
        )
    } else if name == "elixir-ls"@ {
        Some(Some("^elixir-ls-v.*\\.zip$"@))
    } else if name == "clojure-lsp"@ {
        if pf.os is Linux && pf.arch is X86_64 {
            Some(Some("clojure-lsp-native-linux-amd64.zip"@))
        } else if pf.os is Linux && pf.arch is Aarch64 {
            Some(Some("clojure-lsp-native-linux-aarch64.zip"@))
        } else {
            Some(None)
        }
    } else if name == "ltex-ls"@ {
        if pf.os is Linux && pf.arch is X86_64 {
            Some(Some("ltex-ls-.*-linux-x64.tar.gz"@))
        } else if pf.os is Windows && pf.arch is X86_64 {
            Some(Some("ltex-ls-.*-windows-x64.zip"@))
        } else if pf.os is Macos && pf.arch is X86_64 {
            Some(Some("ltex-ls-.*-mac-x64.zip"@))
        } else {
            Some(None)
        }
    } else if name == "direnv"@ {
        if pf.os is Linux && pf.arch is X86_64 {
            Some(Some("direnv.linux-amd64"@))
        } else if pf.os is Linux && pf.arch is Arm {
            Some(Some("direnv.linux-arm64"@))
        } else {
            Some(None)
        }
    } else {
        None
    }
}

/// Gives the asset-name pattern for the named package on this platform.
/// An unknown package, or one with no asset for the platform, is an
/// error.
pub fn get_asset_regex(name: &str, pf: &Platform) -> (r: Result<String, Error>)
    ensures
        match r {
            Ok(s) => asset_regex_spec(name@, *pf) == Some(Some(s@)),
            Err(e) => match asset_regex_spec(name@, *pf) {
                Some(pat) => pat is None && e@ == ErrorV::External(
                    "unable to determine platform for package: "@ + name@,
                ),
                None => e@ == ErrorV::External("unknown package: "@ + name@),
            },
        },
{
    let found: Option<Option<String>> = if str_eq(name, "rust-analyzer") {
        Some(
            pick_musl_gnu(
                pf,
                "rust-analyzer-x86_64-unknown-linux-musl.gz",
                "rust-analyzer-x86_64-unknown-linux-gnu.gz",
            ),
        )
    } else if str_eq(name, "elixir-ls") {
        Some(Some("^elixir-ls-v.*\\.zip$".to_owned()))
    } else if str_eq(name, "clojure-lsp") {
        match (pf.os, pf.arch) {
            (crate::platform::Os::Linux, crate::platform::Arch::X86_64) => Some(
                Some("clojure-lsp-native-linux-amd64.zip".to_owned()),
            ),
            (crate::platform::Os::Linux, crate::platform::Arch::Aarch64) => Some(
                Some("clojure-lsp-native-linux-aarch64.zip".to_owned()),
            ),
            _ => Some(None),
        }
    } else if str_eq(name, "ltex-ls") {
        match (pf.os, pf.arch) {
            (crate::platform::Os::Linux, crate::platform::Arch::X86_64) => Some(
                Some("ltex-ls-.*-linux-x64.tar.gz".to_owned()),
            ),
            (crate::platform::Os::Windows, crate::platform::Arch::X86_64) => Some(
                Some("ltex-ls-.*-windows-x64.zip".to_owned()),
            ),
            (crate::platform::Os::Macos, crate::platform::Arch::X86_64) => Some(
                Some("ltex-ls-.*-mac-x64.zip".to_owned()),
            ),
            _ => Some(None),
        }
    } else if str_eq(name, "direnv") {
        match (pf.os, pf.arch) {
            (crate::platform::Os::Linux, crate::platform::Arch::X86_64) => Some(
                Some("direnv.linux-amd64".to_owned()),
            ),
            (crate::platform::Os::Linux, crate::platform::Arch::Arm) => Some(
                Some("direnv.linux-arm64".to_owned()),
            ),
            _ => Some(None),
        }
    } else {
        None
    };
    match found {
        Some(Some(s)) => Ok(s),
        Some(None) => Err(
            Error::External(concat2("unable to determine platform for package: ", name)),
        ),
        None => Err(Error::External(concat2("unknown package: ", name))),
    }
}

/// One of the catalog's packages, exactly as its builder describes it.
pub open spec fn catalog_member_ok(p: Package, pf: Platform) -> bool {
    ||| langservers::langservers_member_ok(p, pf)
    ||| misc::misc_member_ok(p, pf)
    ||| linters::linters_member_ok(p)
}

/// `nm` names a catalog package on this platform.
pub open spec fn in_catalog(nm: Seq<char>, pf: Platform) -> bool {
    ||| langservers::langservers_names(pf).contains(nm)
    ||| misc::misc_names(pf).contains(nm)
    ||| linters::linters_names().contains(nm)
}

/// Adds every package of the list to the registry, in order; a name
/// already present is replaced in place. Every element added is a catalog
/// package, and afterwards the registry bears exactly the old names plus
/// the list's names.
fn insert_all(reg: &mut PackageRegistry, pkgs: Vec<Package>, Ghost(pf): Ghost<Platform>)
    requires
        old(reg).wf(),
        forall|i: int|
            0 <= i < old(reg).packages_spec().len() ==> catalog_member_ok(
                #[trigger] old(reg).packages_spec()[i],
                pf,
            ),
        forall|j: int| 0 <= j < pkgs@.len() ==> catalog_member_ok(#[trigger] pkgs@[j], pf),
    ensures
        final(reg).wf(),
        forall|i: int|
            0 <= i < final(reg).packages_spec().len() ==> catalog_member_ok(
                #[trigger] final(reg).packages_spec()[i],
                pf,
            ),
        forall|nm: Seq<char>|
            (#[trigger] reg_has(final(reg).packages_spec(), nm)) == (reg_has(
                old(reg).packages_spec(),
                nm,
            ) || package_names(pkgs@).contains(nm)),
{
    let ghost all0 = pkgs@;
    let ghost names0 = package_names(pkgs@);
    let mut v = pkgs;
    while v.len() > 0
        invariant
            reg.wf(),
            v@.len() <= all0.len(),
            v@ == all0.subrange(all0.len() - v@.len(), all0.len() as int),
            names0 == package_names(all0),
            forall|j: int| 0 <= j < all0.len() ==> catalog_member_ok(#[trigger] all0[j], pf),
            forall|i: int|
                0 <= i < reg.packages_spec().len() ==> catalog_member_ok(
                    #[trigger] reg.packages_spec()[i],
                    pf,
                ),
            forall|nm: Seq<char>|
                (#[trigger] reg_has(reg.packages_spec(), nm)) == (reg_has(
                    old(reg).packages_spec(),
                    nm,
                ) || names0.subrange(0, all0.len() - v@.len()).contains(nm)),
        decreases v@.len(),
    {
        let ghost k = all0.len() - v@.len();
        let ghost vpre = v@;
        let ghost regpre = reg.packages_spec();
        let p = v.remove(0);
        proof {
            assert(vpre[0] == all0[k]);
            assert(catalog_member_ok(all0[k], pf));
            assert(v@ =~= all0.subrange(k + 1, all0.len() as int));
        }
        reg.insert(p);
        proof {
            let ps = reg.packages_spec();
            let nmk = all0[k].info_spec().name;
            assert(names0[k] == nmk) by {
                assert(package_names(all0)[k] == all0[k].info_spec().name);
            }
            assert forall|i: int| 0 <= i < ps.len() implies catalog_member_ok(
                #[trigger] ps[i],
                pf,
            ) by {
                if reg_has(regpre, nmk) {
                    if i != reg_index(regpre, nmk) {
                        assert(ps[i] == regpre[i]);
                    } else {
                        assert(ps[i] == all0[k]);
                    }
                } else {
                    if i < regpre.len() {
                        assert(ps[i] == regpre[i]);
                    } else {
                        assert(ps[i] == all0[k]);
                    }
                }
            }
            assert forall|nm: Seq<char>| (#[trigger] reg_has(ps, nm)) == (reg_has(
                old(reg).packages_spec(),
                nm,
            ) || names0.subrange(0, k + 1).contains(nm)) by {
                assert(reg_has(ps, nm) == (reg_has(regpre, nm) || nm == nmk));
                assert(names0.subrange(0, k + 1).contains(nm) == (names0.subrange(
                    0,
                    k,
                ).contains(nm) || nm == names0[k])) by {
                    if names0.subrange(0, k + 1).contains(nm) {
                        let w = choose|w: int|
                            0 <= w < k + 1 && (#[trigger] names0.subrange(0, k + 1)[w]) == nm;
                        if w < k {
                            assert(names0.subrange(0, k)[w] == nm);
                            assert(names0.subrange(0, k).contains(nm));
                        }
                    }
                    if names0.subrange(0, k).contains(nm) {
                        let w = choose|w: int|
                            0 <= w < k && (#[trigger] names0.subrange(0, k)[w]) == nm;
                        assert(names0.subrange(0, k + 1)[w] == nm);
                        assert(names0.subrange(0, k + 1).contains(nm));
                    }
                    if nm == names0[k] {
                        assert(names0.subrange(0, k + 1)[k] == nm);
                        assert(names0.subrange(0, k + 1).contains(nm));
                    }
                }
            }
        }
    }
    proof {
        assert(names0.subrange(0, all0.len() as int) =~= names0);
    }
}

/// Builds the whole catalog for this run: the language servers, the
/// miscellaneous tools and the linters, unique by name. Every package in
/// the registry is exactly what its builder describes, and the names
/// present are exactly the catalog's names for this platform. Building
/// never fails; the `Result` mirrors the catalog's external shape.
pub fn get_packages(cfg: &Config, pf: &Platform) -> (r: Result<PackageRegistry, Error>)
    ensures
        r matches Ok(reg) && reg.wf() && (forall|i: int|
            0 <= i < reg.packages_spec().len() ==> catalog_member_ok(
                #[trigger] reg.packages_spec()[i],
                *pf,
            )) && (forall|nm: Seq<char>|
            (#[trigger] reg_has(reg.packages_spec(), nm)) == in_catalog(nm, *pf)),
{
    let mut reg = PackageRegistry::new();
    let ghost empty0 = reg.packages_spec();
    let ls = langservers::packages(cfg, pf);
    let ghost ls_names = package_names(ls@);
    proof {
        assert forall|j: int| 0 <= j < ls@.len() implies catalog_member_ok(
            #[trigger] ls@[j],
            *pf,
        ) by {
            assert(langservers::langservers_member_ok(ls@[j], *pf));
        }
    }
    insert_all(&mut reg, ls, Ghost(*pf));
    let ghost after1 = reg.packages_spec();
    let ms = misc::packages(cfg, pf);
    let ghost ms_names = package_names(ms@);
    proof {
        assert forall|j: int| 0 <= j < ms@.len() implies catalog_member_ok(
            #[trigger] ms@[j],
            *pf,
        ) by {
            assert(misc::misc_member_ok(ms@[j], *pf));
        }
    }
    insert_all(&mut reg, ms, Ghost(*pf));
    let ghost after2 = reg.packages_spec();
    let lt = linters::packages(cfg, pf);
    let ghost lt_names = package_names(lt@);
    proof {
        assert forall|j: int| 0 <= j < lt@.len() implies catalog_member_ok(
            #[trigger] lt@[j],
            *pf,
        ) by {
            assert(linters::linters_member_ok(lt@[j]));
        }
    }
    insert_all(&mut reg, lt, Ghost(*pf));
    proof {
        assert forall|nm: Seq<char>| (#[trigger] reg_has(reg.packages_spec(), nm)) == in_catalog(
            nm,
            *pf,
        ) by {
            assert(!reg_has(empty0, nm)) by {
                if reg_has(empty0, nm) {
                    let w = choose|w: int|
                        0 <= w < empty0.len() && (#[trigger] empty0[w].info_spec().name) == nm;
                }
            }
            assert(reg_has(after1, nm) == ls_names.contains(nm));
            assert(reg_has(after2, nm) == (reg_has(after1, nm) || ms_names.contains(nm)));
            assert(reg_has(reg.packages_spec(), nm) == (reg_has(after2, nm)
                || lt_names.contains(nm)));
            assert(ls_names == langservers::langservers_names(*pf));
            assert(ms_names == misc::misc_names(*pf));
            assert(lt_names == linters::linters_names());
        }
    }
    Ok(reg)
}

} // verus!
