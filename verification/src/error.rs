//! The failure taxonomy of the installation engine. Only
//! `MissingSystemAsset` and `MissingProg` may trigger the asset-to-native
//! fallback; every other failure is fatal.

use vstd::prelude::*;

verus! {

/// Why an installation step failed.
#[derive(Debug)]
pub enum Error {
    /// Some external failure: I/O, network, deserialization, an invalid
    /// pattern.
    External(String),
    /// An installer callback or its post-processing failed.
    Install { package: String, reason: String },
    /// No release asset matches the running system.
    MissingSystemAsset,
    /// No release was found where one was required.
    MissingRelease,
    /// A required external program is not on the system.
    MissingProg(String),
}

/// The mathematical value of an `Error`.
#[verifier::ext_equal]
pub enum ErrorV {
    External(Seq<char>),
    Install { package: Seq<char>, reason: Seq<char> },
    MissingSystemAsset,
    MissingRelease,
    MissingProg(Seq<char>),
}

impl View for Error {
    type V = ErrorV;

    open spec fn view(&self) -> ErrorV {
        match self {
            Error::External(s) => ErrorV::External(s@),
            Error::Install { package, reason } => ErrorV::Install {
                package: package@,
                reason: reason@,
            },
            Error::MissingSystemAsset => ErrorV::MissingSystemAsset,
            Error::MissingRelease => ErrorV::MissingRelease,
            Error::MissingProg(p) => ErrorV::MissingProg(p@),
        }
    }
}

impl Clone for Error {
    fn clone(&self) -> (res: Self)
        ensures
            res@ == self@,
    {
        let res = match self {
            Error::External(s) => Error::External(s.clone()),
            Error::Install { package, reason } => Error::Install {
                package: package.clone(),
                reason: reason.clone(),
            },
            Error::MissingSystemAsset => Error::MissingSystemAsset,
            Error::MissingRelease => Error::MissingRelease,
            Error::MissingProg(p) => Error::MissingProg(p.clone()),
        };
        proof {
            assert(res@ =~= self@);
        }
        res
    }
}

/// This failure lets a configured native installer be tried after the asset
/// installer.
pub open spec fn is_asset_fallback(e: ErrorV) -> bool {
    e is MissingSystemAsset
}

/// This failure of the native installer ends in "no known installation
/// method" instead of aborting outright.
pub open spec fn is_native_fallback(e: ErrorV) -> bool {
    e is MissingProg
}

/// The single-line rendering of an error.
pub open spec fn message_spec(e: ErrorV) -> Seq<char> {
    match e {
        ErrorV::Install { package, reason } => "error installing "@ + package + ": "@ + reason,
        ErrorV::MissingProg(prog) => "missing program: "@ + prog,
        ErrorV::External(reason) => reason,
        ErrorV::MissingSystemAsset => "missing release asset for your system"@,
        ErrorV::MissingRelease => "no release found"@,
    }
}

impl Error {
    /// Renders the error as a single human-readable line.
    pub fn message(&self) -> (r: String)
        ensures
            r@ == message_spec(self@),
    {
        match self {
            Error::Install { package, reason } => {
                let mut r = "error installing ".to_owned();
                r.append(package.as_str());
                r.append(": ");
                r.append(reason.as_str());
                proof {
                    assert(r@ =~= message_spec(self@));
                }
                r
            },
            Error::MissingProg(prog) => {
                let mut r = "missing program: ".to_owned();
                r.append(prog.as_str());
                proof {
                    assert(r@ =~= message_spec(self@));
                }
                r
            },
            Error::External(reason) => reason.clone(),
            Error::MissingSystemAsset => "missing release asset for your system".to_owned(),
            Error::MissingRelease => "no release found".to_owned(),
        }
    }
}

} // verus!
