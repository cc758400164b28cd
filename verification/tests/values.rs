//! The tables and the plain values of the library.
use goblin::mach::constants::cputype;
use goblin::mach::{fat, header, load_command, symbols};
use macho::base::{Arch, ObjectKind};
use macho::ident::{CodeId, DebugId};
use macho::symbol_map::SymbolMap;
use macho::symbols::Symbol;
use macho::{archive, base, layout};

fn symbol(name: &'static str, address: u64, size: u64) -> Symbol<'static> {
    Symbol {
        name: Some(name),
        address,
        size,
    }
}

#[test]
fn magic_numbers_are_those_of_the_format() {
    assert_eq!(layout::MH_MAGIC, header::MH_MAGIC);
    assert_eq!(layout::MH_CIGAM, header::MH_CIGAM);
    assert_eq!(layout::MH_MAGIC_64, header::MH_MAGIC_64);
    assert_eq!(layout::MH_CIGAM_64, header::MH_CIGAM_64);
    assert_eq!(layout::FAT_MAGIC, fat::FAT_MAGIC);
}

#[test]
fn load_commands_are_those_of_the_format() {
    assert_eq!(layout::LC_SEGMENT, load_command::LC_SEGMENT);
    assert_eq!(layout::LC_SEGMENT_64, load_command::LC_SEGMENT_64);
    assert_eq!(layout::LC_SYMTAB, load_command::LC_SYMTAB);
    assert_eq!(layout::LC_UUID, load_command::LC_UUID);
    assert_eq!(layout::LC_MAIN, load_command::LC_MAIN);
}

#[test]
fn symbol_kinds_are_those_of_the_format() {
    assert_eq!(macho::symbols::N_SECT, symbols::N_SECT);
    assert_eq!(symbols::NO_SECT, 0);
    assert_eq!(symbols::N_STAB, 0xe0);
    assert_eq!(symbols::N_TYPE, 0x0e);
}

#[test]
fn arch_from_cpu() {
    let table = [
        (cputype::CPU_TYPE_I386, cputype::CPU_SUBTYPE_I386_ALL, Arch::X86),
        (cputype::CPU_TYPE_I386, 4, Arch::X86Unknown),
        (cputype::CPU_TYPE_X86_64, cputype::CPU_SUBTYPE_X86_64_ALL, Arch::Amd64),
        (cputype::CPU_TYPE_X86_64, cputype::CPU_SUBTYPE_X86_64_H, Arch::Amd64h),
        (cputype::CPU_TYPE_X86_64, 0, Arch::Amd64Unknown),
        (cputype::CPU_TYPE_ARM64, cputype::CPU_SUBTYPE_ARM64_ALL, Arch::Arm64),
        (cputype::CPU_TYPE_ARM64, cputype::CPU_SUBTYPE_ARM64_V8, Arch::Arm64V8),
        (cputype::CPU_TYPE_ARM64, cputype::CPU_SUBTYPE_ARM64_E, Arch::Arm64e),
        (cputype::CPU_TYPE_ARM64, 3, Arch::Arm64Unknown),
        (cputype::CPU_TYPE_ARM64_32, cputype::CPU_SUBTYPE_ARM64_32_ALL, Arch::Arm64_32),
        (cputype::CPU_TYPE_ARM64_32, cputype::CPU_SUBTYPE_ARM64_32_V8, Arch::Arm64_32V8),
        (cputype::CPU_TYPE_ARM64_32, 2, Arch::Arm64_32Unknown),
        (cputype::CPU_TYPE_ARM, cputype::CPU_SUBTYPE_ARM_ALL, Arch::Arm),
        (cputype::CPU_TYPE_ARM, cputype::CPU_SUBTYPE_ARM_V5TEJ, Arch::ArmV5),
        (cputype::CPU_TYPE_ARM, cputype::CPU_SUBTYPE_ARM_V6, Arch::ArmV6),
        (cputype::CPU_TYPE_ARM, cputype::CPU_SUBTYPE_ARM_V6M, Arch::ArmV6m),
        (cputype::CPU_TYPE_ARM, cputype::CPU_SUBTYPE_ARM_V7, Arch::ArmV7),
        (cputype::CPU_TYPE_ARM, cputype::CPU_SUBTYPE_ARM_V7F, Arch::ArmV7f),
        (cputype::CPU_TYPE_ARM, cputype::CPU_SUBTYPE_ARM_V7S, Arch::ArmV7s),
        (cputype::CPU_TYPE_ARM, cputype::CPU_SUBTYPE_ARM_V7K, Arch::ArmV7k),
        (cputype::CPU_TYPE_ARM, cputype::CPU_SUBTYPE_ARM_V7M, Arch::ArmV7m),
        (cputype::CPU_TYPE_ARM, cputype::CPU_SUBTYPE_ARM_V7EM, Arch::ArmV7em),
        (cputype::CPU_TYPE_ARM, 5, Arch::ArmUnknown),
        (cputype::CPU_TYPE_POWERPC, cputype::CPU_SUBTYPE_POWERPC_ALL, Arch::Ppc),
        (cputype::CPU_TYPE_POWERPC, 1, Arch::Unknown),
        (cputype::CPU_TYPE_POWERPC64, cputype::CPU_SUBTYPE_POWERPC_ALL, Arch::Ppc64),
        (cputype::CPU_TYPE_POWERPC64, 1, Arch::Unknown),
        (cputype::CPU_TYPE_SPARC, 0, Arch::Unknown),
        (0, 0, Arch::Unknown),
    ];
    for (cpu, sub, arch) in table.iter() {
        assert_eq!(Arch::from_cpu(*cpu, *sub), *arch);
    }
}

#[test]
fn cpu_types_are_those_of_the_format() {
    assert_eq!(base::CPU_TYPE_I386, cputype::CPU_TYPE_I386);
    assert_eq!(base::CPU_TYPE_X86_64, cputype::CPU_TYPE_X86_64);
    assert_eq!(base::CPU_TYPE_ARM, cputype::CPU_TYPE_ARM);
    assert_eq!(base::CPU_TYPE_ARM64, cputype::CPU_TYPE_ARM64);
    assert_eq!(base::CPU_TYPE_ARM64_32, cputype::CPU_TYPE_ARM64_32);
    assert_eq!(base::CPU_TYPE_POWERPC, cputype::CPU_TYPE_POWERPC);
    assert_eq!(base::CPU_TYPE_POWERPC64, cputype::CPU_TYPE_POWERPC64);
}

#[test]
fn kind_from_file_type() {
    let table = [
        (header::MH_OBJECT, ObjectKind::Relocatable),
        (header::MH_EXECUTE, ObjectKind::Executable),
        (header::MH_FVMLIB, ObjectKind::Library),
        (header::MH_CORE, ObjectKind::Dump),
        (header::MH_PRELOAD, ObjectKind::Executable),
        (header::MH_DYLIB, ObjectKind::Library),
        (header::MH_DYLINKER, ObjectKind::Executable),
        (header::MH_BUNDLE, ObjectKind::Library),
        (header::MH_DYLIB_STUB, ObjectKind::Other),
        (header::MH_DSYM, ObjectKind::Debug),
        (header::MH_KEXT_BUNDLE, ObjectKind::Library),
        (0, ObjectKind::Other),
        (0xc, ObjectKind::Other),
    ];
    for (filetype, kind) in table.iter() {
        assert_eq!(ObjectKind::from_file_type(*filetype), *kind);
    }
}

#[test]
fn class_files_start_at_version_45() {
    assert_eq!(archive::FIRST_CLASS_FILE_VERSION, 45);
}

#[test]
fn code_id_is_hexadecimal() {
    assert_eq!(CodeId::from_binary(&[]).as_str(), "");
    assert_eq!(
        CodeId::from_binary(&[0x00, 0x01, 0x9a, 0xbc, 0xde, 0xff]).as_str(),
        "00019abcdeff"
    );
}

#[test]
fn code_id_has_the_common_form() {
    let bytes: Vec<u8> = (0..=255).collect();
    let other = debugid::CodeId::from_binary(&bytes);
    assert_eq!(CodeId::from_binary(&bytes).as_str(), other.as_str());
}

#[test]
fn code_ids_of_different_bytes_differ() {
    assert_eq!(CodeId::from_binary(&[0x12]), CodeId::from_binary(&[0x12]));
    assert_ne!(CodeId::from_binary(&[0x12]), CodeId::from_binary(&[0x21]));
    assert_ne!(CodeId::from_binary(&[0x12]), CodeId::from_binary(&[0x12, 0]));
}

#[test]
fn debug_id_holds_the_uuid() {
    let bytes = [1, 2, 3, 4, 5, 6, 7, 8, 9, 10, 11, 12, 13, 14, 15, 16];
    let id = DebugId::from_uuid(bytes);
    assert_eq!(id.uuid(), bytes);
    assert_eq!(id.appendix(), 0);
    let other = debugid::DebugId::from_uuid(uuid::Uuid::from_slice(&bytes).unwrap());
    assert_eq!(&id.uuid()[..], &other.uuid().as_bytes()[..]);
    assert_eq!(id.appendix(), other.appendix());
}

#[test]
fn default_debug_id_is_nil() {
    let id = DebugId::default();
    assert_eq!(id.uuid(), [0; 16]);
    assert_eq!(id.appendix(), 0);
    assert_eq!(&id.uuid()[..], &debugid::DebugId::default().uuid().as_bytes()[..]);
}

#[test]
fn empty_symbol_map() {
    assert_eq!(SymbolMap::from_symbols(vec![]).symbols(), &[]);
}

#[test]
fn symbol_map_is_ordered_by_address() {
    let map = SymbolMap::from_symbols(vec![
        symbol("d", 0x40, 0),
        symbol("b", 0x20, 0),
        symbol("a", 0x10, 0),
        symbol("c", 0x30, 0),
        symbol("e", 0x50, 0),
    ]);
    assert_eq!(
        map.symbols(),
        &[
            symbol("a", 0x10, 0x10),
            symbol("b", 0x20, 0x10),
            symbol("c", 0x30, 0x10),
            symbol("d", 0x40, 0x10),
            symbol("e", 0x50, 0),
        ]
    );
}

#[test]
fn symbol_map_keeps_the_first_symbol_at_an_address() {
    let map = SymbolMap::from_symbols(vec![
        symbol("late", 0x20, 0),
        symbol("first", 0x10, 0),
        symbol("second", 0x10, 0),
        symbol("third", 0x10, 7),
        symbol("later", 0x20, 3),
    ]);
    assert_eq!(
        map.symbols(),
        &[symbol("first", 0x10, 0x10), symbol("late", 0x20, 0)]
    );
}

#[test]
fn symbol_map_keeps_known_sizes() {
    let map = SymbolMap::from_symbols(vec![
        symbol("b", 0x20, 5),
        symbol("a", 0x10, 3),
        symbol("c", 0x30, 0),
        symbol("d", 0x38, 9),
    ]);
    assert_eq!(
        map.symbols(),
        &[
            symbol("a", 0x10, 3),
            symbol("b", 0x20, 5),
            symbol("c", 0x30, 8),
            symbol("d", 0x38, 9),
        ]
    );
}

#[test]
fn symbol_map_of_many_symbols() {
    let symbols: Vec<Symbol<'static>> = (0..1000u64)
        .map(|i| symbol("x", (i * 7919) % 1000 * 4, 0))
        .collect();
    let map = SymbolMap::from_symbols(symbols);
    assert_eq!(map.symbols().len(), 1000);
    for (i, s) in map.symbols().iter().enumerate() {
        assert_eq!(s.address, 4 * i as u64);
        assert_eq!(s.size, if i == 999 { 0 } else { 4 });
    }
}

#[test]
fn symbols_have_names() {
    assert_eq!(symbol("main", 1, 2).name(), Some("main"));
    let unnamed = Symbol {
        name: None,
        address: 0,
        size: 0,
    };
    assert_eq!(unnamed.name(), None);
}
