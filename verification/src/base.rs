//! What can be told of an object file, whatever its format.
use vstd::prelude::*;

verus! {

/// The format of an object file.
#[derive(Clone, Copy, Debug, PartialEq, Eq, Structural)]
pub enum FileFormat {
    /// Mach-O, used on macOS and iOS.
    MachO,
}

/// The byte order in which an object file stores numbers.
#[derive(Clone, Copy, Debug, PartialEq, Eq, Structural)]
pub enum Endian {
    /// The least significant byte comes first.
    Little,
    /// The most significant byte comes first.
    Big,
}

/// The CPU architecture that an object file is made for.
#[allow(non_camel_case_types)]
#[derive(Clone, Copy, Debug, PartialEq, Eq, Structural)]
pub enum Arch {
    /// No architecture known here.
    Unknown,
    /// 32-bit Intel.
    X86,
    /// 32-bit Intel of an unknown kind.
    X86Unknown,
    /// 64-bit Intel.
    Amd64,
    /// 64-bit Intel since Haswell.
    Amd64h,
    /// 64-bit Intel of an unknown kind.
    Amd64Unknown,
    /// 64-bit ARM.
    Arm64,
    /// 64-bit ARM v8.
    Arm64V8,
    /// 64-bit ARM with pointer authentication.
    Arm64e,
    /// 64-bit ARM of an unknown kind.
    Arm64Unknown,
    /// 64-bit ARM with 32-bit addresses.
    Arm64_32,
    /// 64-bit ARM v8 with 32-bit addresses.
    Arm64_32V8,
    /// 64-bit ARM with 32-bit addresses of an unknown kind.
    Arm64_32Unknown,
    /// 32-bit ARM.
    Arm,
    /// 32-bit ARM v5.
    ArmV5,
    /// 32-bit ARM v6.
    ArmV6,
    /// 32-bit ARM v6-M.
    ArmV6m,
    /// 32-bit ARM v7.
    ArmV7,
    /// 32-bit ARM v7F.
    ArmV7f,
    /// 32-bit ARM v7S.
    ArmV7s,
    /// 32-bit ARM v7K.
    ArmV7k,
    /// 32-bit ARM v7-M.
    ArmV7m,
    /// 32-bit ARM v7E-M.
    ArmV7em,
    /// 32-bit ARM of an unknown kind.
    ArmUnknown,
    /// 32-bit PowerPC.
    Ppc,
    /// 64-bit PowerPC.
    Ppc64,
}

/// What an object file is for.
#[derive(Clone, Copy, Debug, PartialEq, Eq, Structural)]
pub enum ObjectKind {
    /// An intermediate object that has yet to be linked.
    Relocatable,
    /// A program.
    Executable,
    /// A library.
    Library,
    /// The memory of a crashed process.
    Dump,
    /// A companion that holds the debug information of another file.
    Debug,
    /// Something else.
    Other,
}

/// CPU type of 32-bit Intel.
pub const CPU_TYPE_I386: u32 = 7;

/// CPU type of 64-bit Intel.
pub const CPU_TYPE_X86_64: u32 = 0x0100_0007;

/// CPU type of 32-bit ARM.
pub const CPU_TYPE_ARM: u32 = 12;

/// CPU type of 64-bit ARM.
pub const CPU_TYPE_ARM64: u32 = 0x0100_000c;

/// CPU type of 64-bit ARM with 32-bit addresses.
pub const CPU_TYPE_ARM64_32: u32 = 0x0200_000c;

/// CPU type of 32-bit PowerPC.
pub const CPU_TYPE_POWERPC: u32 = 18;

/// CPU type of 64-bit PowerPC.
pub const CPU_TYPE_POWERPC64: u32 = 0x0100_0012;

/// The architecture that a CPU type and subtype stand for. A subtype that is not known makes the
/// kind of the architecture unknown, but not so for PowerPC.
pub open spec fn arch_of(cputype: int, cpusubtype: int) -> Arch {
    if cputype == CPU_TYPE_I386 {
        if cpusubtype == 3 {
            Arch::X86
        } else {
            Arch::X86Unknown
        }
    } else if cputype == CPU_TYPE_X86_64 {
        if cpusubtype == 3 {
            Arch::Amd64
        } else if cpusubtype == 8 {
            Arch::Amd64h
        } else {
            Arch::Amd64Unknown
        }
    } else if cputype == CPU_TYPE_ARM64 {
        if cpusubtype == 0 {
            Arch::Arm64
        } else if cpusubtype == 1 {
            Arch::Arm64V8
        } else if cpusubtype == 2 {
            Arch::Arm64e
        } else {
            Arch::Arm64Unknown
        }
    } else if cputype == CPU_TYPE_ARM64_32 {
        if cpusubtype == 0 {
            Arch::Arm64_32
        } else if cpusubtype == 1 {
            Arch::Arm64_32V8
        } else {
            Arch::Arm64_32Unknown
        }
    } else if cputype == CPU_TYPE_ARM {
        if cpusubtype == 0 {
            Arch::Arm
        } else if cpusubtype == 6 {
            Arch::ArmV6
        } else if cpusubtype == 7 {
            Arch::ArmV5
        } else if cpusubtype == 9 {
            Arch::ArmV7
        } else if cpusubtype == 10 {
            Arch::ArmV7f
        } else if cpusubtype == 11 {
            Arch::ArmV7s
        } else if cpusubtype == 12 {
            Arch::ArmV7k
        } else if cpusubtype == 14 {
            Arch::ArmV6m
        } else if cpusubtype == 15 {
            Arch::ArmV7m
        } else if cpusubtype == 16 {
            Arch::ArmV7em
        } else {
            Arch::ArmUnknown
        }
    } else if cputype == CPU_TYPE_POWERPC && cpusubtype == 0 {
        Arch::Ppc
    } else if cputype == CPU_TYPE_POWERPC64 && cpusubtype == 0 {
        Arch::Ppc64
    } else {
        Arch::Unknown
    }
}

impl Arch {
    /// The architecture that a CPU type and a CPU subtype without capability bits stand for.
    pub fn from_cpu(cputype: u32, cpusubtype: u32) -> (res: Arch)
        ensures
            res == arch_of(cputype as int, cpusubtype as int),
    {
        match (cputype, cpusubtype) {
            (CPU_TYPE_I386, 3) => Arch::X86,
            (CPU_TYPE_I386, _) => Arch::X86Unknown,
            (CPU_TYPE_X86_64, 3) => Arch::Amd64,
            (CPU_TYPE_X86_64, 8) => Arch::Amd64h,
            (CPU_TYPE_X86_64, _) => Arch::Amd64Unknown,
            (CPU_TYPE_ARM64, 0) => Arch::Arm64,
            (CPU_TYPE_ARM64, 1) => Arch::Arm64V8,
            (CPU_TYPE_ARM64, 2) => Arch::Arm64e,
            (CPU_TYPE_ARM64, _) => Arch::Arm64Unknown,
            (CPU_TYPE_ARM64_32, 0) => Arch::Arm64_32,
            (CPU_TYPE_ARM64_32, 1) => Arch::Arm64_32V8,
            (CPU_TYPE_ARM64_32, _) => Arch::Arm64_32Unknown,
            (CPU_TYPE_ARM, 0) => Arch::Arm,
            (CPU_TYPE_ARM, 7) => Arch::ArmV5,
            (CPU_TYPE_ARM, 6) => Arch::ArmV6,
            (CPU_TYPE_ARM, 14) => Arch::ArmV6m,
            (CPU_TYPE_ARM, 9) => Arch::ArmV7,
            (CPU_TYPE_ARM, 10) => Arch::ArmV7f,
            (CPU_TYPE_ARM, 11) => Arch::ArmV7s,
            (CPU_TYPE_ARM, 12) => Arch::ArmV7k,
            (CPU_TYPE_ARM, 15) => Arch::ArmV7m,
            (CPU_TYPE_ARM, 16) => Arch::ArmV7em,
            (CPU_TYPE_ARM, _) => Arch::ArmUnknown,
            (CPU_TYPE_POWERPC, 0) => Arch::Ppc,
            (CPU_TYPE_POWERPC64, 0) => Arch::Ppc64,
            (_, _) => Arch::Unknown,
        }
    }
}

/// The kind of object that a file type stands for.
pub open spec fn kind_of(filetype: int) -> ObjectKind {
    if filetype == 0x1 {
        ObjectKind::Relocatable
    } else if filetype == 0x2 || filetype == 0x5 || filetype == 0x7 {
        ObjectKind::Executable
    } else if filetype == 0x3 || filetype == 0x6 || filetype == 0x8 || filetype == 0xb {
        ObjectKind::Library
    } else if filetype == 0x4 {
        ObjectKind::Dump
    } else if filetype == 0xa {
        ObjectKind::Debug
    } else {
        ObjectKind::Other
    }
}

/// File type of a relocatable object.
pub const MH_OBJECT: u32 = 0x1;

/// File type of a program.
pub const MH_EXECUTE: u32 = 0x2;

/// File type of a shared library with a fixed address.
pub const MH_FVMLIB: u32 = 0x3;

/// File type of a memory dump.
pub const MH_CORE: u32 = 0x4;

/// File type of a preloaded program.
pub const MH_PRELOAD: u32 = 0x5;

/// File type of a shared library.
pub const MH_DYLIB: u32 = 0x6;

/// File type of a dynamic linker.
pub const MH_DYLINKER: u32 = 0x7;

/// File type of a bundle, which is loaded on demand.
pub const MH_BUNDLE: u32 = 0x8;

/// File type of a companion file with debug information.
pub const MH_DSYM: u32 = 0xa;

/// File type of a kernel extension.
pub const MH_KEXT_BUNDLE: u32 = 0xb;

impl ObjectKind {
    /// The kind of object that a file type stands for.
    pub fn from_file_type(filetype: u32) -> (res: ObjectKind)
        ensures
            res == kind_of(filetype as int),
    {
        match filetype {
            MH_OBJECT => ObjectKind::Relocatable,
            MH_EXECUTE => ObjectKind::Executable,
            MH_FVMLIB => ObjectKind::Library,
            MH_CORE => ObjectKind::Dump,
            MH_PRELOAD => ObjectKind::Executable,
            MH_DYLIB => ObjectKind::Library,
            MH_DYLINKER => ObjectKind::Executable,
            MH_BUNDLE => ObjectKind::Library,
            MH_DSYM => ObjectKind::Debug,
            MH_KEXT_BUNDLE => ObjectKind::Library,
            _ => ObjectKind::Other,
        }
    }
}

/// A section with debug information.
pub struct DwarfSection<'d> {
    /// The contents of the section.
    pub data: &'d [u8],
    /// The address of the section in the address space of the image.
    pub address: u64,
    /// Where the contents start in the file.
    pub offset: u64,
    /// The alignment of the section.
    pub align: u64,
}

} // verus!
