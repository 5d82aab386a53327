//! Packages and the installation strategy: an optional asset installer,
//! tried first, an optional native installer as the fallback, and the rules
//! that decide which failures fall through and which abort.

use vstd::prelude::*;
use crate::actions::{actions_view, Action};
use crate::error::{is_asset_fallback, is_native_fallback, Error, ErrorV};
use crate::installers::{
    default_uninstall_actions, default_uninstall_spec, native_uninstall_spec,
    GithubReleaseInstaller, NativeInstaller,
};
use crate::release::Release;
use crate::version::{parse_spec, Version, VersionV};

verus! {

/// The static identity of a catalog entry. `name` is the catalog key,
/// `mod_name` the identifier handed to a native package manager or used to
/// namespace on-disk package directories, `bin_name` the resulting
/// executable's name.
#[derive(Debug)]
pub struct PkgInfo {
    pub repo: String,
    pub name: String,
    pub mod_name: String,
    pub bin_name: String,
}

/// The mathematical value of a `PkgInfo`.
#[verifier::ext_equal]
pub struct PkgInfoV {
    pub repo: Seq<char>,
    pub name: Seq<char>,
    pub mod_name: Seq<char>,
    pub bin_name: Seq<char>,
}

impl View for PkgInfo {
    type V = PkgInfoV;

    open spec fn view(&self) -> PkgInfoV {
        PkgInfoV {
            repo: self.repo@,
            name: self.name@,
            mod_name: self.mod_name@,
            bin_name: self.bin_name@,
        }
    }
}

impl PkgInfo {
    /// All four fields given explicitly.
    pub fn new(repo: &str, name: &str, mod_name: &str, bin_name: &str) -> (r: Self)
        ensures
            r@ == (PkgInfoV { repo: repo@, name: name@, mod_name: mod_name@, bin_name: bin_name@ }),
    {
        let r = PkgInfo {
            repo: repo.to_owned(),
            name: name.to_owned(),
            mod_name: mod_name.to_owned(),
            bin_name: bin_name.to_owned(),
        };
        proof {
            assert(r@ =~= PkgInfoV {
                repo: repo@,
                name: name@,
                mod_name: mod_name@,
                bin_name: bin_name@,
            });
        }
        r
    }

    /// Module and binary both named after the package.
    pub fn named(repo: &str, name: &str) -> (r: Self)
        ensures
            r@ == (PkgInfoV { repo: repo@, name: name@, mod_name: name@, bin_name: name@ }),
    {
        PkgInfo::new(repo, name, name, name)
    }

    /// A separate module identifier; the binary named after the package.
    pub fn with_module(repo: &str, name: &str, mod_name: &str) -> (r: Self)
        ensures
            r@ == (PkgInfoV { repo: repo@, name: name@, mod_name: mod_name@, bin_name: name@ }),
    {
        PkgInfo::new(repo, name, mod_name, name)
    }
}

impl Clone for PkgInfo {
    fn clone(&self) -> (res: Self)
        ensures
            res@ == self@,
    {
        let res = PkgInfo {
            repo: self.repo.clone(),
            name: self.name.clone(),
            mod_name: self.mod_name.clone(),
            bin_name: self.bin_name.clone(),
        };
        proof {
            assert(res@ =~= self@);
        }
        res
    }
}

/// The three filesystem roots, as plain path strings: the root itself, the
/// directory for executables, and the directory for package data.
#[derive(Debug)]
pub struct Dirs {
    pub root_dir: String,
    pub bin_dir: String,
    pub pkg_dir: String,
}

/// The mathematical value of `Dirs`.
#[verifier::ext_equal]
pub struct DirsV {
    pub root_dir: Seq<char>,
    pub bin_dir: Seq<char>,
    pub pkg_dir: Seq<char>,
}

impl View for Dirs {
    type V = DirsV;

    open spec fn view(&self) -> DirsV {
        DirsV { root_dir: self.root_dir@, bin_dir: self.bin_dir@, pkg_dir: self.pkg_dir@ }
    }
}

/// The port through which release assets are fetched. The binary's HTTP
/// client implements it; nothing is assumed of the bytes it returns.
pub trait Assets {
    fn download(&self, asset: &crate::release::Asset) -> Result<Vec<u8>, Error>;
}

/// Whether a package was installed or removed; handed to post-install
/// hooks.
#[derive(Clone, Copy, Debug, PartialEq, Eq, Structural)]
pub enum CallbackOperation {
    Install,
    Uninstall,
}

/// Which installer an attempt used.
#[derive(Clone, Copy, Debug, PartialEq, Eq, Structural)]
pub enum AttemptKind {
    Asset,
    Native,
}

/// What the strategy decides after an attempt.
#[derive(Debug)]
pub enum StepDecision {
    /// The attempt succeeded; record the version and stop.
    Installed,
    /// Try the given installer next.
    Continue(AttemptKind),
    /// Fatal: abort the whole install with this error.
    Abort(Error),
    /// No known installation method for this system.
    NoMethod,
}

/// The mathematical value of a `StepDecision`.
#[verifier::ext_equal]
pub enum StepDecisionV {
    Installed,
    Continue(AttemptKind),
    Abort(ErrorV),
    NoMethod,
}

impl View for StepDecision {
    type V = StepDecisionV;

    open spec fn view(&self) -> StepDecisionV {
        match self {
            StepDecision::Installed => StepDecisionV::Installed,
            StepDecision::Continue(k) => StepDecisionV::Continue(*k),
            StepDecision::Abort(e) => StepDecisionV::Abort(e@),
            StepDecision::NoMethod => StepDecisionV::NoMethod,
        }
    }
}

/// Which installer the strategy tries first: the asset installer is
/// strictly preferred; a native installer alone is tried directly; with
/// neither there is nothing to attempt.
pub open spec fn first_attempt_spec(has_asset: bool, has_native: bool) -> Option<AttemptKind> {
    if has_asset {
        Some(AttemptKind::Asset)
    } else if has_native {
        Some(AttemptKind::Native)
    } else {
        None
    }
}

/// What follows an attempt's outcome (`None` is success). A missing system
/// asset falls through to a configured native installer; a missing package
/// manager program ends in "no known method"; anything else is fatal.
pub open spec fn next_step_spec(
    has_native: bool,
    attempted: AttemptKind,
    outcome: Option<ErrorV>,
) -> StepDecisionV {
    match outcome {
        None => StepDecisionV::Installed,
        Some(e) => match attempted {
            AttemptKind::Asset => if is_asset_fallback(e) {
                if has_native {
                    StepDecisionV::Continue(AttemptKind::Native)
                } else {
                    StepDecisionV::NoMethod
                }
            } else {
                StepDecisionV::Abort(e)
            },
            AttemptKind::Native => if is_native_fallback(e) {
                StepDecisionV::NoMethod
            } else {
                StepDecisionV::Abort(e)
            },
        },
    }
}

/// A package: its identity plus one or both installers. At least one
/// installer is always present.
#[derive(Debug)]
pub struct Package {
    info: PkgInfo,
    asset_installer: Option<GithubReleaseInstaller>,
    native_installer: Option<NativeInstaller>,
}

impl Package {
    /// Both installers as configured.
    pub closed spec fn has_asset_spec(&self) -> bool {
        self.asset_installer is Some
    }

    pub closed spec fn has_native_spec(&self) -> bool {
        self.native_installer is Some
    }

    pub closed spec fn info_spec(&self) -> PkgInfoV {
        self.info@
    }

    pub closed spec fn asset_installer_spec(&self) -> Option<GithubReleaseInstaller> {
        self.asset_installer
    }

    pub closed spec fn native_installer_spec(&self) -> Option<NativeInstaller> {
        self.native_installer
    }

    /// Builds a package. At least one installer must be configured;
    /// construction with neither is not meaningful and is excluded.
    pub fn new(
        info: PkgInfo,
        asset_installer: Option<GithubReleaseInstaller>,
        native_installer: Option<NativeInstaller>,
    ) -> (p: Self)
        requires
            asset_installer is Some || native_installer is Some,
        ensures
            p.info_spec() == info@,
            p.asset_installer_spec() == asset_installer,
            p.native_installer_spec() == native_installer,
            p.has_asset_spec() == (asset_installer is Some),
            p.has_native_spec() == (native_installer is Some),
    {
        Self { info, asset_installer, native_installer }
    }

    /// The name of the package: the catalog key.
    pub fn name(&self) -> (r: &String)
        ensures
            r@ == self.info_spec().name,
    {
        &self.info.name
    }

    /// The source repository of the package.
    pub fn repo(&self) -> (r: &String)
        ensures
            r@ == self.info_spec().repo,
    {
        &self.info.repo
    }

    /// The package's static identity.
    pub fn info(&self) -> (r: &PkgInfo)
        ensures
            r@ == self.info_spec(),
    {
        &self.info
    }

    /// The configured asset installer, if any.
    pub fn asset_installer(&self) -> (r: Option<&GithubReleaseInstaller>)
        ensures
            match r {
                Some(a) => self.asset_installer_spec() == Some(*a),
                None => self.asset_installer_spec() is None,
            },
    {
        self.asset_installer.as_ref()
    }

    /// The configured native installer, if any.
    pub fn native_installer(&self) -> (r: Option<&NativeInstaller>)
        ensures
            match r {
                Some(n) => self.native_installer_spec() == Some(*n),
                None => self.native_installer_spec() is None,
            },
    {
        self.native_installer.as_ref()
    }

    /// The first installer to attempt.
    pub fn first_attempt(&self) -> (r: Option<AttemptKind>)
        ensures
            r == first_attempt_spec(self.has_asset_spec(), self.has_native_spec()),
    {
        if self.asset_installer.is_some() {
            Some(AttemptKind::Asset)
        } else if self.native_installer.is_some() {
            Some(AttemptKind::Native)
        } else {
            None
        }
    }

    /// The decision after one attempt: `outcome` is `None` on success, the
    /// attempt's error otherwise.
    pub fn next_step(&self, attempted: AttemptKind, outcome: Option<&Error>) -> (r: StepDecision)
        ensures
            r@ == next_step_spec(
                self.has_native_spec(),
                attempted,
                match outcome {
                    Some(e) => Some(e@),
                    None => None,
                },
            ),
    {
        match outcome {
            None => StepDecision::Installed,
            Some(e) => match attempted {
                AttemptKind::Asset => match e {
                    Error::MissingSystemAsset => {
                        if self.native_installer.is_some() {
                            StepDecision::Continue(AttemptKind::Native)
                        } else {
                            StepDecision::NoMethod
                        }
                    },
                    _ => StepDecision::Abort(e.clone()),
                },
                AttemptKind::Native => match e {
                    Error::MissingProg(_) => StepDecision::NoMethod,
                    _ => StepDecision::Abort(e.clone()),
                },
            },
        }
    }
}

impl Package {
    /// The uninstall effects of the package: the asset installer's default
    /// removal when one is configured, else the native installer's.
    pub fn uninstall_actions(&self, dirs: &Dirs) -> (r: Vec<Action>)
        ensures
            self.has_asset_spec() ==> actions_view(r@) == default_uninstall_spec(
                self.info_spec(),
                dirs@,
            ),
            (!self.has_asset_spec() && self.native_installer_spec() is Some) ==> actions_view(r@)
                == native_uninstall_spec(
                self.native_installer_spec().unwrap(),
                self.info_spec(),
                dirs@,
            ),
            !self.has_asset_spec() && self.native_installer_spec() is None ==> r@.len() == 0,
    {
        if self.asset_installer.is_some() {
            default_uninstall_actions(&self.info, dirs)
        } else {
            match &self.native_installer {
                Some(n) => n.uninstall_actions(&self.info, dirs),
                None => Vec::new(),
            }
        }
    }
}

/// The version recorded in the manifest on success: the version parsed
/// from the chosen release's canonical tag, or `Unknown` when no release
/// was obtained.
pub fn version_from_release(release: &Option<Release>) -> (v: Version)
    ensures
        match release {
            Some(r) => v@ == parse_spec(r.tag@),
            None => v@ == VersionV::Unknown("unknown"@),
        },
{
    match release {
        Some(r) => match r.try_get_version() {
            Ok(v) => v,
            Err(_) => {
                proof {
                    assert(false);
                }
                Version::Unknown("unknown".to_owned())
            },
        },
        None => Version::Unknown("unknown".to_owned()),
    }
}

/// The asset installer, when a missing system asset leaves it helpless,
/// falls through to a configured native installer, whose success installs
/// the package; no fatal error surfaces along that path.
pub proof fn lemma_fallback_policy(has_native: bool)
    ensures
        has_native ==> next_step_spec(
            has_native,
            AttemptKind::Asset,
            Some(ErrorV::MissingSystemAsset),
        ) == StepDecisionV::Continue(AttemptKind::Native),
        next_step_spec(has_native, AttemptKind::Native, None::<ErrorV>)
            == StepDecisionV::Installed,
{
}

/// With no installer able to handle the system — none configured, or each
/// failing with its non-fatal error — the strategy ends in "no known
/// installation method", never in a silent success.
pub proof fn lemma_no_method_policy(prog: Seq<char>)
    ensures
        first_attempt_spec(false, false) is None,
        next_step_spec(false, AttemptKind::Asset, Some(ErrorV::MissingSystemAsset))
            == StepDecisionV::NoMethod,
        forall|has_native: bool|
            next_step_spec(has_native, AttemptKind::Native, Some(ErrorV::MissingProg(prog)))
                == StepDecisionV::NoMethod,
{
}

/// Any failure other than the two fallback errors aborts the install with
/// that very error.
pub proof fn lemma_fatal_policy(has_native: bool, e: ErrorV)
    ensures
        !is_asset_fallback(e) ==> next_step_spec(has_native, AttemptKind::Asset, Some(e))
            == StepDecisionV::Abort(e),
        !is_native_fallback(e) ==> next_step_spec(has_native, AttemptKind::Native, Some(e))
            == StepDecisionV::Abort(e),
{
}

} // verus!
