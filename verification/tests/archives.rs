//! Fat containers and archives.
use macho::archive::{MachArchive, MonoArchive};
use macho::base::Arch;
use macho::fat::FatMachO;
use macho::object::{MachError, MachObject};

/// A little-endian object without load commands.
fn object(cputype: u32, cpusubtype: u32) -> Vec<u8> {
    let mut data = vec![0xcf, 0xfa, 0xed, 0xfe];
    data.extend_from_slice(&cputype.to_le_bytes());
    data.extend_from_slice(&cpusubtype.to_le_bytes());
    data.extend_from_slice(&2u32.to_le_bytes());
    data.resize(32, 0);
    data
}

/// An object with an entry point that has more than 64 bits.
fn object_with_bad_entry() -> Vec<u8> {
    let mut data = object(0x0100_0007, 3);
    data[16] = 2;
    data[20] = 96;
    data.extend_from_slice(&0x19u32.to_le_bytes());
    data.extend_from_slice(&72u32.to_le_bytes());
    data.extend_from_slice(b"__TEXT\0\0\0\0\0\0\0\0\0\0");
    data.extend_from_slice(&0x1000u64.to_le_bytes());
    data.resize(32 + 72, 0);
    data.extend_from_slice(&0x8000_0028u32.to_le_bytes());
    data.extend_from_slice(&24u32.to_le_bytes());
    data.extend_from_slice(&[0xff; 8]);
    data.extend_from_slice(&[0; 8]);
    data
}

fn x64() -> Vec<u8> {
    object(0x0100_0007, 3)
}

fn arm64() -> Vec<u8> {
    object(0x0100_000c, 0)
}

/// The header of a container with its records of offsets and sizes.
fn header(count: u32, places: &[(u32, u32)]) -> Vec<u8> {
    let mut data = vec![0xca, 0xfe, 0xba, 0xbe];
    data.extend_from_slice(&count.to_be_bytes());
    for (offset, size) in places {
        data.extend_from_slice(&[0; 8]);
        data.extend_from_slice(&offset.to_be_bytes());
        data.extend_from_slice(&size.to_be_bytes());
        data.extend_from_slice(&[0; 4]);
    }
    data
}

/// A container with the given objects.
fn container(objects: &[Vec<u8>]) -> Vec<u8> {
    let mut offset = 8 + 20 * objects.len() as u32;
    let mut places = vec![];
    for object in objects {
        places.push((offset, object.len() as u32));
        offset += object.len() as u32;
    }
    let mut data = header(objects.len() as u32, &places);
    for object in objects {
        data.extend_from_slice(object);
    }
    data
}

fn arch(item: Result<MachObject<'_>, MachError>) -> Option<Arch> {
    match item {
        Ok(object) => Some(object.arch()),
        Err(MachError::BadObject(_)) => None,
    }
}

fn archive(data: &[u8]) -> MachArchive<'_> {
    MachArchive::parse(data).expect("an archive")
}

#[test]
fn containers_pass_the_test() {
    let data = container(&[x64(), arm64()]);
    assert!(FatMachO::test(&data));
    assert!(FatMachO::test(&data[..16]));
    assert!(!FatMachO::test(&data[..15]));
    assert!(!MachObject::test(&data));
    assert!(!FatMachO::test(&x64()));
    assert!(!FatMachO::test(&[]));
}

#[test]
fn containers_need_a_header() {
    let data = container(&[]);
    assert_eq!(data.len(), 8);
    assert!(FatMachO::parse(&data).is_ok());
    assert!(matches!(
        FatMachO::parse(&data[..7]),
        Err(MachError::BadObject(_))
    ));
    assert!(matches!(FatMachO::parse(&[]), Err(MachError::BadObject(_))));
    // The magic number is up to the test.
    assert!(FatMachO::parse(&[0; 8]).is_ok());
}

#[test]
fn container_gives_its_objects() {
    let data = container(&[x64(), arm64()]);
    let fat = FatMachO::parse(&data).unwrap();
    assert_eq!(fat.object_count(), 2);
    let mut iter = fat.objects();
    assert_eq!(iter.size_hint(), (2, Some(2)));
    let first = iter.next().unwrap().unwrap();
    assert_eq!(first.arch(), Arch::Amd64);
    assert_eq!(first.data(), &x64()[..]);
    assert_eq!(iter.size_hint(), (1, Some(1)));
    let second = iter.next().unwrap().unwrap();
    assert_eq!(second.arch(), Arch::Arm64);
    assert_eq!(second.data(), &arm64()[..]);
    assert_eq!(iter.size_hint(), (0, Some(0)));
    assert!(iter.next().is_none());
    assert!(iter.next().is_none());
    assert_eq!(iter.size_hint(), (0, Some(0)));
}

#[test]
fn container_resolves_objects_by_index() {
    let data = container(&[x64(), arm64()]);
    let fat = FatMachO::parse(&data).unwrap();
    for index in 0..2 {
        assert!(fat.can_extract(index));
        let mut iter = fat.objects();
        for _ in 0..index {
            iter.next();
        }
        let resolved = fat.object_by_index(index).unwrap().unwrap();
        assert_eq!(resolved.data(), iter.next().unwrap().unwrap().data());
    }
    assert!(fat.can_extract(2));
    assert!(fat.object_by_index(2).unwrap().is_none());
    assert!(fat.object_by_index(usize::max_value()).unwrap().is_none());
}

#[test]
fn iteration_goes_on_after_an_error() {
    let data = container(&[x64(), vec![1, 2, 3], arm64()]);
    let fat = FatMachO::parse(&data).unwrap();
    let mut iter = fat.objects();
    assert_eq!(arch(iter.next().unwrap()), Some(Arch::Amd64));
    assert_eq!(arch(iter.next().unwrap()), None);
    assert_eq!(iter.size_hint(), (1, Some(1)));
    assert_eq!(arch(iter.next().unwrap()), Some(Arch::Arm64));
    assert!(iter.next().is_none());
    assert!(fat.object_by_index(1).is_err());
    assert!(fat.object_by_index(2).is_ok());
}

#[test]
fn missing_records_are_errors() {
    let data = header(3, &[(28, 32)]);
    let mut data = data;
    data.extend_from_slice(&x64()[..10]);
    let fat = FatMachO::parse(&data).unwrap();
    assert_eq!(fat.object_count(), 3);
    assert!(fat.can_extract(1));
    assert!(matches!(
        fat.object_by_index(1),
        Err(MachError::BadObject(_))
    ));
    let mut iter = fat.objects();
    assert_eq!(arch(iter.next().unwrap()), None);
    assert_eq!(arch(iter.next().unwrap()), None);
    assert_eq!(arch(iter.next().unwrap()), None);
    assert!(iter.next().is_none());
}

#[test]
fn objects_end_with_the_container() {
    // The second object claims more bytes than there are.
    let mut data = header(2, &[(48, 32), (80, 1000)]);
    data.extend_from_slice(&x64());
    data.extend_from_slice(&arm64());
    let fat = FatMachO::parse(&data).unwrap();
    let second = fat.object_by_index(1).unwrap().unwrap();
    assert_eq!(second.data(), &arm64()[..]);
    // The first object lies beyond the end.
    let data = header(1, &[(1000, 32)]);
    let fat = FatMachO::parse(&data).unwrap();
    assert!(fat.can_extract(0));
    assert!(fat.object_by_index(0).is_err());
}

#[test]
fn objects_that_do_not_end_within_32_bits_are_errors() {
    let mut data = header(
        3,
        &[(0xffff_fff0, 0x10), (0xffff_fff0, 0x0f), (68, 32)],
    );
    data.extend_from_slice(&x64());
    let fat = FatMachO::parse(&data).unwrap();
    for index in 0..2 {
        assert!(fat.can_extract(index));
        assert!(matches!(
            fat.object_by_index(index),
            Err(MachError::BadObject(_))
        ));
        assert!(archive(&data).can_extract(index));
        assert!(archive(&data).object_by_index(index).is_err());
    }
    let mut iter = fat.objects();
    assert_eq!(arch(iter.next().unwrap()), None);
    assert_eq!(arch(iter.next().unwrap()), None);
    assert_eq!(iter.size_hint(), (1, Some(1)));
    assert_eq!(arch(iter.next().unwrap()), Some(Arch::Amd64));
    assert!(iter.next().is_none());
}

#[test]
fn object_at_the_last_address_is_an_error() {
    let mut data = vec![];
    for word in [0xcafe_babe, 1, 7, 3, 0xffff_ffff, 1, 0u32].iter() {
        data.extend_from_slice(&word.to_be_bytes());
    }
    let fat = FatMachO::parse(&data).unwrap();
    assert_eq!(fat.object_count(), 1);
    assert!(matches!(
        fat.object_by_index(0),
        Err(MachError::BadObject(_))
    ));
    assert!(fat.objects().next().unwrap().is_err());
}

#[test]
fn failures_carry_the_error_of_the_reader() {
    let message = |error: MachError| match error {
        MachError::BadObject(error) => format!("{:?}", error),
    };
    // Objects.
    let mut cut = x64();
    cut[20] = 200;
    for data in [vec![], vec![0; 64], x64()[..31].to_vec(), cut].iter() {
        let expected = format!("{:?}", goblin::mach::MachO::parse(data, 0).err().unwrap());
        assert_eq!(message(MachObject::parse(data).err().unwrap()), expected);
        let resolved = archive(data).object_by_index(0).err().unwrap();
        assert_eq!(message(resolved), expected);
        let item = archive(data).objects().next().unwrap();
        assert_eq!(message(item.err().unwrap()), expected);
    }
    // Containers.
    let short = &container(&[])[..7];
    let expected = goblin::mach::MultiArch::new(short).err().unwrap();
    assert_eq!(
        message(FatMachO::parse(short).err().unwrap()),
        format!("{:?}", expected)
    );
    // Records.
    let data = header(3, &[(28, 32)]);
    let fat = FatMachO::parse(&data).unwrap();
    let reader = goblin::mach::MultiArch::new(&data).unwrap();
    for index in 1..3 {
        let expected = reader.iter_arches().nth(index).unwrap().err().unwrap();
        assert_eq!(
            message(fat.object_by_index(index).err().unwrap()),
            format!("{:?}", expected)
        );
    }
    // Objects out of range.
    let data = header(1, &[(0xffff_ffff, 1)]);
    let fat = FatMachO::parse(&data).unwrap();
    let expected = format!("{:?}", goblin::mach::MachO::parse(&[], 0).err().unwrap());
    assert_eq!(message(fat.object_by_index(0).err().unwrap()), expected);
}

#[test]
fn objects_must_have_an_entry_point_of_64_bits() {
    let data = container(&[object_with_bad_entry(), x64()]);
    let fat = FatMachO::parse(&data).unwrap();
    assert!(!fat.can_extract(0));
    assert!(fat.can_extract(1));
    let single = object_with_bad_entry();
    assert!(!archive(&single).can_extract(0));
    assert!(archive(&single).can_extract(1));
    assert!(archive(&single).object_by_index(1).unwrap().is_none());
}

#[test]
fn archives_pass_the_test() {
    assert!(MachArchive::test(&x64()));
    assert!(MachArchive::test(&container(&[x64()])));
    assert!(MachArchive::test(&container(&[x64(), arm64()])));
    assert!(!MachArchive::test(&[]));
    assert!(!MachArchive::test(&[0; 64]));
    assert!(!MachArchive::test(&x64()[..15]));
}

#[test]
fn class_files_are_no_archives() {
    let mut data = header(44, &[]);
    data.resize(64, 0);
    assert!(MachArchive::test(&data));
    assert!(FatMachO::test(&data));
    let mut data = header(45, &[]);
    data.resize(64, 0);
    assert!(!MachArchive::test(&data));
    assert!(FatMachO::test(&data));
    // Java 8: minor version 0, major version 52.
    let mut data = vec![0xca, 0xfe, 0xba, 0xbe, 0, 0, 0, 52];
    data.resize(64, 0);
    assert!(!MachArchive::test(&data));
    let mut data = header(0xffff_ffff, &[]);
    data.resize(64, 0);
    assert!(!MachArchive::test(&data));
}

#[test]
fn archive_of_a_single_object() {
    let data = x64();
    let archive = archive(&data);
    assert!(!archive.is_multi());
    assert_eq!(archive.object_count(), 1);
    assert!(archive.can_extract(0));
    let object = archive.object_by_index(0).unwrap().unwrap();
    assert_eq!(object.data(), &data[..]);
    assert!(archive.object_by_index(1).unwrap().is_none());
    let mut iter = archive.objects();
    assert_eq!(iter.size_hint(), (1, Some(1)));
    assert_eq!(iter.next().unwrap().unwrap().data(), &data[..]);
    assert_eq!(iter.size_hint(), (0, Some(0)));
    assert!(iter.next().is_none());
    assert!(iter.next().is_none());
}

#[test]
fn archive_of_a_container() {
    let data = container(&[x64(), vec![], arm64()]);
    let archive = archive(&data);
    assert!(archive.is_multi());
    assert_eq!(archive.object_count(), 3);
    let mut iter = archive.objects();
    assert_eq!(iter.size_hint(), (3, Some(3)));
    assert_eq!(arch(iter.next().unwrap()), Some(Arch::Amd64));
    assert_eq!(arch(iter.next().unwrap()), None);
    assert_eq!(arch(iter.next().unwrap()), Some(Arch::Arm64));
    assert_eq!(iter.size_hint(), (0, Some(0)));
    assert!(iter.next().is_none());
    assert_eq!(
        archive.object_by_index(2).unwrap().unwrap().arch(),
        Arch::Arm64
    );
    assert!(archive.object_by_index(1).is_err());
    assert!(archive.object_by_index(3).unwrap().is_none());
}

#[test]
fn container_of_one_object_is_multi() {
    let data = container(&[x64()]);
    assert!(archive(&data).is_multi());
    assert_eq!(archive(&data).object_count(), 1);
}

#[test]
fn archive_of_anything_else() {
    for data in [vec![], vec![0; 64], container(&[])].iter() {
        let archive = archive(data);
        assert!(!archive.is_multi());
        assert_eq!(archive.object_count(), 1);
        assert!(archive.can_extract(0));
        assert!(matches!(
            archive.object_by_index(0),
            Err(MachError::BadObject(_))
        ));
        assert!(archive.objects().next().unwrap().is_err());
    }
}

#[test]
fn mono_archive_has_one_object() {
    let data = arm64();
    let mono = MonoArchive::new(&data);
    assert_eq!(mono.object_count(), 1);
    assert_eq!(
        mono.object_by_index(0).unwrap().unwrap().arch(),
        Arch::Arm64
    );
    assert!(mono.object_by_index(1).unwrap().is_none());
    let mut iter = mono.objects();
    assert_eq!(iter.size_hint(), (1, Some(1)));
    assert_eq!(arch(iter.next().unwrap()), Some(Arch::Arm64));
    assert!(iter.next().is_none());
    assert_eq!(iter.size_hint(), (0, Some(0)));
}
