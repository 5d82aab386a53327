//! The linters of the catalog.

use vstd::prelude::*;
use crate::config::Config;
use crate::installers::{GoInstaller, NativeInstaller};
use crate::pkg::{Package, PkgInfo, PkgInfoV};
use crate::platform::Platform;
use crate::pkgs::package_names;

verus! {

/// The names of the linters, in catalog order.
pub open spec fn linters_names() -> Seq<Seq<char>> {
    seq!["actionlint"@]
}

/// `p` is one of the linters, exactly as its builder states it.
pub open spec fn linters_member_ok(p: Package) -> bool {
    is_actionlint(p)
}

/// The linters, in catalog order. Every element is the package its
/// builder describes.
pub fn packages(_cfg: &Config, _pf: &Platform) -> (r: Vec<Package>)
    ensures
        package_names(r@) == linters_names(),
        forall|j: int| 0 <= j < r@.len() ==> linters_member_ok(#[trigger] r@[j]),
{
    let mut r: Vec<Package> = Vec::new();
    r.push(actionlint());
    proof {
        assert(package_names(r@) =~= linters_names());
        assert(forall|j: int| 0 <= j < r@.len() ==> linters_member_ok(#[trigger] r@[j]));
    }
    r
}

/// `p` is exactly the actionlint package.
pub open spec fn is_actionlint(p: Package) -> bool {
    &&& p.info_spec() == (PkgInfoV {
        repo: "https://github.com/rhysd/actionlint"@,
        name: "actionlint"@,
        mod_name: "github.com/rhysd/actionlint/cmd/actionlint"@,
        bin_name: "actionlint"@,
    })
    &&& p.asset_installer_spec() is None
    &&& p.native_installer_spec() matches Some(n) && n is Go
}

/// The GitHub Actions workflow linter, installed through the Go
/// toolchain.
pub fn actionlint() -> (p: Package)
    ensures
        is_actionlint(p),
{
    let info = PkgInfo::new(
        "https://github.com/rhysd/actionlint",
        "actionlint",
        "github.com/rhysd/actionlint/cmd/actionlint",
        "actionlint",
    );
    Package::new(info, None, Some(NativeInstaller::Go(GoInstaller {  })))
}

} // verus!
