//! The run configuration, as plain data: the ensure-installed list,
//! per-package version pins, and optional release-provider credentials.
//! Loading the file itself is the binary's job; the engine only reads the
//! values.

use vstd::prelude::*;
use crate::text::str_eq;
use crate::version::Version;

verus! {

/// Optional credentials for authenticated requests to the release
/// provider.
#[derive(Debug)]
pub struct Auth {
    pub client_id: String,
    pub client_secret: String,
}

/// Per-package configuration: an optional version pin.
#[derive(Debug)]
pub struct PackageConfig {
    pub version: Option<Version>,
}

impl Default for PackageConfig {
    fn default() -> (r: Self)
        ensures
            r.version is None,
    {
        PackageConfig { version: None }
    }
}

/// One package's configuration under its name.
#[derive(Debug)]
pub struct NamedPackageConfig {
    pub name: String,
    pub config: PackageConfig,
}

/// The whole configuration: which packages must always be installed, the
/// per-package pins, and the provider credentials.
#[derive(Debug)]
pub struct Config {
    pub ensure_installed: Option<Vec<String>>,
    pub package_configs: Vec<NamedPackageConfig>,
    pub auth: Option<Auth>,
}

impl Default for Config {
    fn default() -> (r: Self)
        ensures
            r.ensure_installed is None,
            r.package_configs@.len() == 0,
            r.auth is None,
    {
        Config { ensure_installed: None, package_configs: Vec::new(), auth: None }
    }
}

/// `i` is the first position of the pin list bearing `name`.
pub open spec fn is_first_config(cs: Seq<NamedPackageConfig>, name: Seq<char>, i: int) -> bool {
    &&& 0 <= i < cs.len()
    &&& cs[i].name@ == name
    &&& forall|j: int| 0 <= j < i ==> (#[trigger] cs[j].name@) != name
}

impl Config {
    /// The configuration of the named package, if any: the first entry
    /// bearing the name.
    pub fn package_config(&self, name: &str) -> (r: Option<&PackageConfig>)
        ensures
            match r {
                Some(c) => exists|i: int|
                    is_first_config(self.package_configs@, name@, i) && c
                        == &self.package_configs@[i].config,
                None => forall|i: int|
                    0 <= i < self.package_configs@.len()
                        ==> (#[trigger] self.package_configs@[i].name@) != name@,
            },
    {
        let n = self.package_configs.len();
        let mut i: usize = 0;
        while i < n
            invariant
                n == self.package_configs.len(),
                i <= n,
                forall|j: int| 0 <= j < i ==> (#[trigger] self.package_configs@[j].name@) != name@,
            decreases n - i,
        {
            if str_eq(self.package_configs[i].name.as_str(), name) {
                proof {
                    assert(is_first_config(self.package_configs@, name@, i as int));
                }
                return Some(&self.package_configs[i].config);
            }
            i = i + 1;
        }
        None
    }
}

} // verus!
