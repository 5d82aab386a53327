//! The running platform, as plain data. The engine never branches on the
//! build target itself: the binary reports its platform once, and the
//! catalog maps it to asset patterns.

use vstd::prelude::*;

verus! {

#[derive(Clone, Copy, Debug, PartialEq, Eq, Structural)]
pub enum Os {
    Linux,
    Macos,
    Windows,
    OtherOs,
}

#[derive(Clone, Copy, Debug, PartialEq, Eq, Structural)]
pub enum Arch {
    X86_64,
    Aarch64,
    Arm,
    OtherArch,
}

#[derive(Clone, Copy, Debug, PartialEq, Eq, Structural)]
pub enum Libc {
    Musl,
    Gnu,
    OtherLibc,
}

/// OS, CPU architecture and libc flavour of the running system.
#[derive(Clone, Copy, Debug, PartialEq, Eq, Structural)]
pub struct Platform {
    pub os: Os,
    pub arch: Arch,
    pub libc: Libc,
}

impl Platform {
    pub fn new(os: Os, arch: Arch, libc: Libc) -> (p: Self)
        ensures
            p == (Platform { os, arch, libc }),
    {
        Platform { os, arch, libc }
    }

    /// An x86-64 Linux system with the given libc flavour.
    pub open spec fn is_linux_x86_64(self) -> bool {
        self.os is Linux && self.arch is X86_64
    }
}

} // verus!
