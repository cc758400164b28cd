//! Fat containers, which hold objects for several architectures.
use crate::entry;
use crate::layout;
use crate::object;
use crate::object::{MachError, MachObject};
use crate::reader;
use crate::reader::{ArchEntry, Signature};
use goblin::error::Error;
use goblin::mach::{FatArchIterator, MultiArch};
use vstd::prelude::*;
use vstd::slice::slice_subrange;

verus! {

/// Whether a file could be a fat container, by its length and its magic number.
pub open spec fn has_container_signature(b: Seq<u8>) -> bool {
    b.len() >= 16 && layout::has_fat_magic(b)
}

/// What a container holds in the place of an object.
pub enum ObjectSlot {
    /// The container ends before the record that gives the place of the object, so that reading the
    /// record fails with this error.
    Missing(Error),
    /// The record gives a place that does not end within 32 bits.
    OutOfRange,
    /// The bytes of the object.
    Bytes(Seq<u8>),
}

/// The number, or the bound if it is larger.
pub open spec fn at_most(n: int, bound: int) -> int {
    if n <= bound {
        n
    } else {
        bound
    }
}

/// What a fat container holds in a place: as many of the bytes as there are.
pub open spec fn slot_at(b: Seq<u8>, place: Result<layout::ArchLayout, Error>) -> ObjectSlot {
    match place {
        Err(error) => ObjectSlot::Missing(error),
        Ok(arch) => if arch.offset + arch.size > u32::MAX {
            ObjectSlot::OutOfRange
        } else {
            ObjectSlot::Bytes(
                b.subrange(
                    at_most(arch.offset, b.len() as int),
                    at_most(arch.offset + arch.size, b.len() as int),
                ),
            )
        },
    }
}

/// What a fat container holds, for a sequence of places.
pub open spec fn slots_at(
    b: Seq<u8>,
    places: Seq<Result<layout::ArchLayout, Error>>,
) -> Seq<ObjectSlot> {
    Seq::new(places.len(), |i: int| slot_at(b, places[i]))
}

/// The objects of a fat container.
pub open spec fn fat_slots(b: Seq<u8>) -> Seq<ObjectSlot> {
    Seq::new(layout::fat_count(b) as nat, |i: int| slot_at(b, reader::record(b, i)))
}

/// Whether extracting an object can be tried: the address of its entry point has 64 bits.
pub open spec fn is_extractable(slot: ObjectSlot) -> bool {
    slot matches ObjectSlot::Bytes(data) ==> entry::entry_fits(data)
}

/// Whether a result is that of extracting the object. A place out of range fails like one without
/// any bytes.
pub open spec fn is_extract_of(slot: ObjectSlot, res: Result<MachObject, MachError>) -> bool {
    match slot {
        ObjectSlot::Missing(error) => res matches Err(MachError::BadObject(e)) && e == error,
        ObjectSlot::OutOfRange => res matches Err(MachError::BadObject(e)) && Some(e)
            == reader::object_failure(Seq::empty()),
        ObjectSlot::Bytes(data) => object::is_parse_of(data, res),
    }
}

/// Whether a result is that of extracting the object with the given index, if there is one.
pub open spec fn is_extract_at(
    slots: Seq<ObjectSlot>,
    index: int,
    res: Result<Option<MachObject>, MachError>,
) -> bool {
    if index < slots.len() {
        match res {
            Ok(Some(object)) => is_extract_of(slots[index], Ok(object)),
            Ok(None) => false,
            Err(error) => is_extract_of(slots[index], Err(error)),
        }
    } else {
        res matches Ok(None)
    }
}

/// The bytes of an object in a fat container, as many as there are, and none if its place is out of
/// range.
fn slice_at<'d>(data: &'d [u8], arch: &ArchEntry) -> (res: &'d [u8])
    ensures
        match slot_at(
            data@,
            Ok(layout::ArchLayout { offset: arch.offset as int, size: arch.size as int }),
        ) {
            ObjectSlot::Bytes(bytes) => res@ == bytes,
            _ => res@ == Seq::<u8>::empty(),
        },
{
    let len: usize = data.len();
    if arch.size > u32::MAX - arch.offset {
        return slice_subrange(data, len, len);
    }
    let end_of_range: u32 = arch.offset + arch.size;
    let start: usize = if (arch.offset as usize) < len {
        arch.offset as usize
    } else {
        len
    };
    let end: usize = if (end_of_range as usize) < len {
        end_of_range as usize
    } else {
        len
    };
    slice_subrange(data, start, end)
}

/// An iterator over objects in a [`FatMachO`].
///
/// Objects are parsed just-in-time while iterating, which may result in errors. The iterator is
/// still valid afterwards, however, and can be used to resolve the next object.
pub struct FatMachObjectIterator<'d, 'a> {
    iter: FatArchIterator<'a>,
    remaining: usize,
    data: &'d [u8],
}

impl<'d, 'a> View for FatMachObjectIterator<'d, 'a> {
    type V = Seq<ObjectSlot>;

    /// The objects that have yet to come.
    closed spec fn view(&self) -> Seq<ObjectSlot> {
        slots_at(self.data@, reader::arches_left(self.iter))
    }
}

impl<'d, 'a> FatMachObjectIterator<'d, 'a> {
    /// The iterator knows how many objects remain.
    pub closed spec fn is_valid(&self) -> bool {
        self.remaining == reader::arches_left(self.iter).len()
    }

    /// The next object, if there is one.
    pub fn next(&mut self) -> (res: Option<Result<MachObject<'d>, MachError>>)
        requires
            old(self).is_valid(),
            old(self)@.len() > 0 ==> is_extractable(old(self)@[0]),
        ensures
            final(self).is_valid(),
            res is None <==> old(self)@.len() == 0,
            res is None ==> final(self)@.len() == 0,
            res matches Some(item) ==> {
                &&& is_extract_of(old(self)@[0], item)
                &&& final(self)@ == old(self)@.drop_first()
            },
    {
        if self.remaining == 0 {
            return None;
        }
        self.remaining = self.remaining - 1;
        match reader::next_arch(&mut self.iter) {
            Some(Ok(arch)) => Some(MachObject::parse(slice_at(self.data, &arch))),
            Some(Err(error)) => Some(Err(MachError::BadObject(error))),
            None => None,
        }
    }

    /// How many objects remain, at least and at most.
    pub fn size_hint(&self) -> (res: (usize, Option<usize>))
        requires
            self.is_valid(),
        ensures
            res.0 == self@.len(),
            res.1 == Some(res.0),
    {
        (self.remaining, Some(self.remaining))
    }
}

/// A fat MachO container that hosts one or more [`MachObject`]s.
///
/// The view of a container is the contents of its file.
pub struct FatMachO<'d> {
    fat: MultiArch<'d>,
    data: &'d [u8],
}

impl<'d> View for FatMachO<'d> {
    type V = Seq<u8>;

    closed spec fn view(&self) -> Seq<u8> {
        self.data@
    }
}

impl<'d> FatMachO<'d> {
    /// The container has been read from the data.
    #[verifier::type_invariant]
    spec fn is_read_from_data(self) -> bool {
        &&& reader::container_bytes(self.fat) == self.data@
        &&& self.data@.len() >= 8
    }

    /// Tests whether the buffer could contain a fat MachO container.
    pub fn test(data: &[u8]) -> (res: bool)
        ensures
            res == has_container_signature(data@),
    {
        match reader::peek(data) {
            Signature::Container(_) => true,
            _ => false,
        }
    }

    /// Tries to parse a fat MachO container from the given slice.
    pub fn parse(data: &'d [u8]) -> (res: Result<Self, MachError>)
        ensures
            res is Ok <==> data@.len() >= 8,
            res matches Ok(fat) ==> fat@ == data@,
            res matches Err(MachError::BadObject(error)) ==> error == reader::container_error(
                data@,
            ),
    {
        match reader::parse_container(data) {
            Ok(fat) => Ok(FatMachO { fat, data }),
            Err(error) => Err(MachError::BadObject(error)),
        }
    }

    /// Returns an iterator over objects in this container.
    pub fn objects(&self) -> (res: FatMachObjectIterator<'d, '_>)
        ensures
            res.is_valid(),
            res@ == fat_slots(self@),
    {
        proof {
            use_type_invariant(self);
        }
        FatMachObjectIterator {
            iter: reader::arches(&self.fat),
            remaining: reader::arch_count(&self.fat),
            data: self.data,
        }
    }

    /// Returns the number of objects in this archive.
    pub fn object_count(&self) -> (res: usize)
        ensures
            res == fat_slots(self@).len(),
            res == layout::fat_count(self@),
    {
        proof {
            use_type_invariant(self);
        }
        reader::arch_count(&self.fat)
    }

    /// Tells whether extracting the object at the given index, if there is one, can be tried: the
    /// address of its entry point must have 64 bits.
    pub fn can_extract(&self, index: usize) -> (res: bool)
        ensures
            res == (index < fat_slots(self@).len() ==> is_extractable(
                fat_slots(self@)[index as int],
            )),
    {
        proof {
            use_type_invariant(self);
        }
        let mut iter = reader::arches(&self.fat);
        match reader::nth_arch(&mut iter, index) {
            Some(Ok(arch)) => entry::entry_point_fits(slice_at(self.data, &arch)),
            _ => true,
        }
    }

    /// Resolves the object at the given index.
    ///
    /// Returns `Ok(None)` if the index is out of bounds, or `Err` if the object exists but cannot
    /// be parsed. The object must be one that [`can_extract`](Self::can_extract) allows.
    pub fn object_by_index(&self, index: usize) -> (res: Result<Option<MachObject<'d>>, MachError>)
        requires
            index < fat_slots(self@).len() ==> is_extractable(fat_slots(self@)[index as int]),
        ensures
            is_extract_at(fat_slots(self@), index as int, res),
    {
        proof {
            use_type_invariant(self);
        }
        let mut iter = reader::arches(&self.fat);
        let arch = match reader::nth_arch(&mut iter, index) {
            Some(Ok(arch)) => arch,
            Some(Err(error)) => return Err(MachError::BadObject(error)),
            None => return Ok(None),
        };
        match MachObject::parse(slice_at(self.data, &arch)) {
            Ok(object) => Ok(Some(object)),
            Err(error) => Err(error),
        }
    }
}

} // verus!
