//! Fixed hardware and operating-system descriptors of a managed PC.

use vstd::prelude::*;

use crate::person::Person;

verus! {

/// One mebibyte, in bytes.
pub const MEBIBYTE: u64 = 0x10_0000;

/// One gibibyte, in bytes.
pub const GIBIBYTE: u64 = 0x4000_0000;

/// An amount of memory, in bytes.
#[derive(Debug, Clone, Copy, PartialEq, Eq, Structural)]
pub struct NumBytes {
    pub bytes: u64,
}

impl NumBytes {
    pub fn new(bytes: u64) -> (r: Self)
        ensures
            r.bytes == bytes,
    {
        NumBytes { bytes }
    }
}

/// A capability flag of a CPU.
#[derive(Debug, Clone, Copy, PartialEq, Eq, Structural)]
pub enum CpuFlag {
    MMX,
    SSE,
    SEV,
    AVX,
}

/// The immutable hardware descriptor of a PC: its CPU capability flags
/// and its memory size.
#[derive(Debug, Clone)]
pub struct PcHardware {
    pub flags: Vec<CpuFlag>,
    pub ram: NumBytes,
}

/// The flags and memory size of the workstation for nerds.
pub open spec fn is_nerd_workstation(h: PcHardware) -> bool {
    &&& h.flags@ == seq![CpuFlag::MMX, CpuFlag::SSE, CpuFlag::SEV, CpuFlag::AVX]
    &&& h.ram.bytes == 64 * GIBIBYTE
}

/// The flags and memory size of the beefy workstation, the default
/// hardware profile.
pub open spec fn is_beefy_workstation(h: PcHardware) -> bool {
    &&& h.flags@ == seq![CpuFlag::MMX, CpuFlag::SSE, CpuFlag::SEV]
    &&& h.ram.bytes == 32 * GIBIBYTE
}

/// The flags and memory size of a normal machine.
pub open spec fn is_normal_workstation(h: PcHardware) -> bool {
    &&& h.flags@ == seq![CpuFlag::MMX, CpuFlag::SSE]
    &&& h.ram.bytes == 16 * GIBIBYTE
}

impl PcHardware {
    pub fn nerd_workstation() -> (h: Self)
        ensures
            is_nerd_workstation(h),
    {
        let mut flags: Vec<CpuFlag> = Vec::new();
        flags.push(CpuFlag::MMX);
        flags.push(CpuFlag::SSE);
        flags.push(CpuFlag::SEV);
        flags.push(CpuFlag::AVX);
        proof {
            assert(flags@ =~= seq![CpuFlag::MMX, CpuFlag::SSE, CpuFlag::SEV, CpuFlag::AVX]);
        }
        PcHardware { flags, ram: NumBytes::new(GIBIBYTE * 64) }
    }

    pub fn beefy_workstation() -> (h: Self)
        ensures
            is_beefy_workstation(h),
    {
        let mut flags: Vec<CpuFlag> = Vec::new();
        flags.push(CpuFlag::MMX);
        flags.push(CpuFlag::SSE);
        flags.push(CpuFlag::SEV);
        proof {
            assert(flags@ =~= seq![CpuFlag::MMX, CpuFlag::SSE, CpuFlag::SEV]);
        }
        PcHardware { flags, ram: NumBytes::new(GIBIBYTE * 32) }
    }

    pub fn normal() -> (h: Self)
        ensures
            is_normal_workstation(h),
    {
        let mut flags: Vec<CpuFlag> = Vec::new();
        flags.push(CpuFlag::MMX);
        flags.push(CpuFlag::SSE);
        proof {
            assert(flags@ =~= seq![CpuFlag::MMX, CpuFlag::SSE]);
        }
        PcHardware { flags, ram: NumBytes::new(GIBIBYTE * 16) }
    }
}

/// The operating system installed on a PC.
#[derive(Debug, Clone, Copy, PartialEq, Eq, Structural)]
pub enum OperatingSystem {
    WindowsXp,
    WindowsVista,
    Windows7,
    Windows11,
    MacOs { major: u16, minor: u16 },
    Linux { major: u16, minor: u16 },
}

/// The operating systems nobody should run any more: the two oldest
/// Windows versions and Linux before its fifth major release.
pub open spec fn spec_is_crappy(os: OperatingSystem) -> bool {
    match os {
        OperatingSystem::WindowsXp => true,
        OperatingSystem::WindowsVista => true,
        OperatingSystem::Linux { major, minor } => major < 5,
        _ => false,
    }
}

/// The operating systems of the Windows family.
pub open spec fn spec_is_windows(os: OperatingSystem) -> bool {
    match os {
        OperatingSystem::WindowsXp => true,
        OperatingSystem::WindowsVista => true,
        OperatingSystem::Windows7 => true,
        OperatingSystem::Windows11 => true,
        _ => false,
    }
}

impl OperatingSystem {
    pub fn is_crappy(&self) -> (r: bool)
        ensures
            r == spec_is_crappy(*self),
    {
        match self {
            OperatingSystem::WindowsXp | OperatingSystem::WindowsVista => true,
            OperatingSystem::Linux { major, minor: _ } => *major < 5,
            _ => false,
        }
    }

    pub fn is_windows(&self) -> (r: bool)
        ensures
            r == spec_is_windows(*self),
    {
        match self {
            OperatingSystem::WindowsXp
            | OperatingSystem::WindowsVista
            | OperatingSystem::Windows7
            | OperatingSystem::Windows11 => true,
            _ => false,
        }
    }
}

/// The default operating system filled in when a builder names none.
pub open spec fn default_os() -> OperatingSystem {
    OperatingSystem::Linux { major: 5, minor: 5 }
}

/// Accumulates the parts of a new PC entry; hardware and operating
/// system fall back to fixed defaults when left unset.
#[derive(Debug, Clone)]
pub struct PcBuilder {
    pub hardware: Option<PcHardware>,
    pub os: Option<OperatingSystem>,
    pub owner: Option<Person>,
}

impl Default for PcBuilder {
    fn default() -> (r: Self)
        ensures
            r.hardware is None,
            r.os is None,
            r.owner is None,
    {
        PcBuilder { hardware: None, os: None, owner: None }
    }
}

impl PcBuilder {
    /// Fill unset hardware and operating system with the default
    /// profile: a beefy workstation running the default Linux.
    pub fn fill_defaults(&mut self)
        ensures
            match old(self).hardware {
                Some(h) => final(self).hardware == Some(h),
                None => final(self).hardware matches Some(h) && is_beefy_workstation(h),
            },
            match old(self).os {
                Some(os) => final(self).os == Some(os),
                None => final(self).os == Some(default_os()),
            },
            final(self).owner == old(self).owner,
    {
        if self.hardware.is_none() {
            self.hardware = Some(PcHardware::beefy_workstation());
        }
        if self.os.is_none() {
            self.os = Some(OperatingSystem::Linux { major: 5, minor: 5 });
        }
    }
}

} // verus!
