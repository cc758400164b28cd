//! Archives of objects: fat containers, and single objects in their place.
use crate::entry;
use crate::fat;
use crate::fat::{FatMachO, FatMachObjectIterator};
use crate::layout;
use crate::object;
use crate::object::{MachError, MachObject};
use crate::reader;
use crate::reader::Signature;
use vstd::prelude::*;

verus! {

/// The number of architectures from which on a file is not taken for a fat container.
///
/// Java class files share the magic number CAFEBABE of fat containers. In place of the number of
/// objects they have two bytes for the minor version and two bytes for the major version of the
/// class file format. The first public version of Java had the class version 45, so a number of 45
/// and more is more likely that of a class file than of a container with as many architectures,
/// which should be very rare.
///
/// <https://docs.oracle.com/javase/specs/jvms/se6/html/ClassFile.doc.html>
pub const FIRST_CLASS_FILE_VERSION: usize = 45;

/// Whether a file could be an object, or a fat container with a plausible number of objects.
pub open spec fn has_archive_signature(b: Seq<u8>) -> bool {
    object::has_object_signature(b) || (fat::has_container_signature(b) && layout::fat_count(b)
        < FIRST_CLASS_FILE_VERSION)
}

/// The objects of an archive: those of a fat container, or the file itself.
pub open spec fn archive_slots(b: Seq<u8>) -> Seq<fat::ObjectSlot> {
    if fat::has_container_signature(b) {
        fat::fat_slots(b)
    } else {
        seq![fat::ObjectSlot::Bytes(b)]
    }
}

/// An archive that consists of a single object.
///
/// The view of the archive is the contents of its file.
pub struct MonoArchive<'d> {
    data: &'d [u8],
}

impl<'d> View for MonoArchive<'d> {
    type V = Seq<u8>;

    closed spec fn view(&self) -> Seq<u8> {
        self.data@
    }
}

impl<'d> MonoArchive<'d> {
    /// The archive of the object in the given slice.
    pub fn new(data: &'d [u8]) -> (res: Self)
        ensures
            res@ == data@,
    {
        MonoArchive { data }
    }

    /// Returns an iterator over the object.
    pub fn objects(&self) -> (res: MonoArchiveObjects<'d>)
        ensures
            res@ == seq![fat::ObjectSlot::Bytes(self@)],
    {
        MonoArchiveObjects { data: Some(self.data) }
    }

    /// Returns the number of objects, which is one.
    pub fn object_count(&self) -> (res: usize)
        ensures
            res == 1,
    {
        1
    }

    /// Tells whether extracting the object at the given index, if there is one, can be tried: the
    /// address of its entry point must have 64 bits.
    pub fn can_extract(&self, index: usize) -> (res: bool)
        ensures
            res == (index == 0 ==> entry::entry_fits(self@)),
    {
        index != 0 || entry::entry_point_fits(self.data)
    }

    /// Resolves the object at the given index, which is there at index zero only.
    pub fn object_by_index(&self, index: usize) -> (res: Result<Option<MachObject<'d>>, MachError>)
        requires
            index == 0 ==> entry::entry_fits(self@),
        ensures
            fat::is_extract_at(seq![fat::ObjectSlot::Bytes(self@)], index as int, res),
    {
        if index != 0 {
            return Ok(None);
        }
        match MachObject::parse(self.data) {
            Ok(object) => Ok(Some(object)),
            Err(error) => Err(error),
        }
    }
}

/// An iterator over the object of a [`MonoArchive`].
pub struct MonoArchiveObjects<'d> {
    data: Option<&'d [u8]>,
}

impl<'d> View for MonoArchiveObjects<'d> {
    type V = Seq<fat::ObjectSlot>;

    /// The object, if it has yet to come.
    closed spec fn view(&self) -> Seq<fat::ObjectSlot> {
        match self.data {
            Some(data) => seq![fat::ObjectSlot::Bytes(data@)],
            None => Seq::empty(),
        }
    }
}

impl<'d> MonoArchiveObjects<'d> {
    /// The next object, if there is one.
    pub fn next(&mut self) -> (res: Option<Result<MachObject<'d>, MachError>>)
        requires
            old(self)@.len() > 0 ==> fat::is_extractable(old(self)@[0]),
        ensures
            res is None <==> old(self)@.len() == 0,
            res is None ==> final(self)@.len() == 0,
            res matches Some(item) ==> {
                &&& fat::is_extract_of(old(self)@[0], item)
                &&& final(self)@ == old(self)@.drop_first()
            },
    {
        match self.data {
            Some(data) => {
                self.data = None;
                Some(MachObject::parse(data))
            },
            None => None,
        }
    }

    /// How many objects remain, at least and at most.
    pub fn size_hint(&self) -> (res: (usize, Option<usize>))
        ensures
            res.0 == self@.len(),
            res.1 == Some(res.0),
    {
        let count: usize = if self.data.is_some() {
            1
        } else {
            0
        };
        (count, Some(count))
    }
}

/// The two kinds of iterators over objects.
enum MachObjectIteratorInner<'d, 'a> {
    Single(MonoArchiveObjects<'d>),
    Archive(FatMachObjectIterator<'d, 'a>),
}

/// An iterator over objects in a [`MachArchive`].
pub struct MachObjectIterator<'d, 'a>(MachObjectIteratorInner<'d, 'a>);

impl<'d, 'a> View for MachObjectIterator<'d, 'a> {
    type V = Seq<fat::ObjectSlot>;

    /// The objects that have yet to come.
    closed spec fn view(&self) -> Seq<fat::ObjectSlot> {
        match self.0 {
            MachObjectIteratorInner::Single(iter) => iter@,
            MachObjectIteratorInner::Archive(iter) => iter@,
        }
    }
}

impl<'d, 'a> MachObjectIterator<'d, 'a> {
    /// The iterator knows how many objects remain.
    pub closed spec fn is_valid(&self) -> bool {
        match self.0 {
            MachObjectIteratorInner::Single(iter) => true,
            MachObjectIteratorInner::Archive(iter) => iter.is_valid(),
        }
    }

    /// The next object, if there is one.
    pub fn next(&mut self) -> (res: Option<Result<MachObject<'d>, MachError>>)
        requires
            old(self).is_valid(),
            old(self)@.len() > 0 ==> fat::is_extractable(old(self)@[0]),
        ensures
            final(self).is_valid(),
            res is None <==> old(self)@.len() == 0,
            res is None ==> final(self)@.len() == 0,
            res matches Some(item) ==> {
                &&& fat::is_extract_of(old(self)@[0], item)
                &&& final(self)@ == old(self)@.drop_first()
            },
    {
        match &mut self.0 {
            MachObjectIteratorInner::Single(iter) => iter.next(),
            MachObjectIteratorInner::Archive(iter) => iter.next(),
        }
    }

    /// How many objects remain, at least and at most.
    pub fn size_hint(&self) -> (res: (usize, Option<usize>))
        requires
            self.is_valid(),
        ensures
            res.0 == self@.len(),
            res.1 == Some(res.0),
    {
        match &self.0 {
            MachObjectIteratorInner::Single(iter) => iter.size_hint(),
            MachObjectIteratorInner::Archive(iter) => iter.size_hint(),
        }
    }
}

/// The two kinds of archives.
enum MachArchiveInner<'d> {
    Single(MonoArchive<'d>),
    Archive(FatMachO<'d>),
}

/// An archive that can consist of a single [`MachObject`] or a [`FatMachO`] container.
///
/// Executables and dSYM files on macOS can be a so-called _Fat Mach Object_: It contains multiple
/// objects for several architectures. When loading this object, the operating system determines the
/// object corresponding to the host's architecture. This allows to distribute a single binary with
/// optimizations for specific CPUs, which is frequently done on iOS.
///
/// To abstract over the differences, `MachArchive` simulates the archive interface also for single
/// Mach objects. This allows uniform access to both file types.
///
/// The view of an archive is the contents of its file.
pub struct MachArchive<'d>(MachArchiveInner<'d>);

impl<'d> View for MachArchive<'d> {
    type V = Seq<u8>;

    closed spec fn view(&self) -> Seq<u8> {
        match self.0 {
            MachArchiveInner::Single(inner) => inner@,
            MachArchiveInner::Archive(inner) => inner@,
        }
    }
}

impl<'d> MachArchive<'d> {
    /// The kind of the archive is that of its file.
    #[verifier::type_invariant]
    spec fn has_kind_of_file(self) -> bool {
        match self.0 {
            MachArchiveInner::Single(inner) => !fat::has_container_signature(inner@),
            MachArchiveInner::Archive(inner) => fat::has_container_signature(inner@),
        }
    }

    /// Tests whether the buffer contains either a Mach Object or a Fat Mach Object.
    pub fn test(data: &[u8]) -> (res: bool)
        ensures
            res == has_archive_signature(data@),
    {
        match reader::peek(data) {
            Signature::Object => true,
            Signature::Container(count) => count < FIRST_CLASS_FILE_VERSION,
            Signature::Other => false,
        }
    }

    /// Tries to parse a Mach archive from the given slice.
    ///
    /// This never fails. A file that is neither an object nor a container is taken for a single
    /// object, so that resolving the object gives a meaningful error.
    pub fn parse(data: &'d [u8]) -> (res: Result<Self, MachError>)
        ensures
            res matches Ok(archive) && archive@ == data@,
    {
        let inner = match reader::peek(data) {
            Signature::Container(_) => match FatMachO::parse(data) {
                Ok(fat) => MachArchiveInner::Archive(fat),
                Err(error) => return Err(error),
            },
            _ => MachArchiveInner::Single(MonoArchive::new(data)),
        };
        Ok(MachArchive(inner))
    }

    /// Returns an iterator over all objects contained in this archive.
    pub fn objects(&self) -> (res: MachObjectIterator<'d, '_>)
        ensures
            res.is_valid(),
            res@ == archive_slots(self@),
    {
        proof {
            use_type_invariant(self);
        }
        MachObjectIterator(
            match &self.0 {
                MachArchiveInner::Single(inner) => MachObjectIteratorInner::Single(inner.objects()),
                MachArchiveInner::Archive(inner) => MachObjectIteratorInner::Archive(
                    inner.objects(),
                ),
            },
        )
    }

    /// Returns the number of objects in this archive.
    pub fn object_count(&self) -> (res: usize)
        ensures
            res == archive_slots(self@).len(),
    {
        proof {
            use_type_invariant(self);
        }
        match &self.0 {
            MachArchiveInner::Single(inner) => inner.object_count(),
            MachArchiveInner::Archive(inner) => inner.object_count(),
        }
    }

    /// Tells whether extracting the object at the given index, if there is one, can be tried: the
    /// address of its entry point must have 64 bits.
    pub fn can_extract(&self, index: usize) -> (res: bool)
        ensures
            res == (index < archive_slots(self@).len() ==> fat::is_extractable(
                archive_slots(self@)[index as int],
            )),
    {
        proof {
            use_type_invariant(self);
        }
        match &self.0 {
            MachArchiveInner::Single(inner) => inner.can_extract(index),
            MachArchiveInner::Archive(inner) => inner.can_extract(index),
        }
    }

    /// Resolves the object at the given index.
    ///
    /// Returns `Ok(None)` if the index is out of bounds, or `Err` if the object exists but cannot
    /// be parsed. The object must be one that [`can_extract`](Self::can_extract) allows.
    pub fn object_by_index(&self, index: usize) -> (res: Result<Option<MachObject<'d>>, MachError>)
        requires
            index < archive_slots(self@).len() ==> fat::is_extractable(
                archive_slots(self@)[index as int],
            ),
        ensures
            fat::is_extract_at(archive_slots(self@), index as int, res),
    {
        proof {
            use_type_invariant(self);
        }
        match &self.0 {
            MachArchiveInner::Single(inner) => inner.object_by_index(index),
            MachArchiveInner::Archive(inner) => inner.object_by_index(index),
        }
    }

    /// Returns whether this is a multi-object archive.
    ///
    /// This may also return true if there is only a single object inside the archive.
    pub fn is_multi(&self) -> (res: bool)
        ensures
            res == fat::has_container_signature(self@),
    {
        proof {
            use_type_invariant(self);
        }
        match &self.0 {
            MachArchiveInner::Archive(_) => true,
            MachArchiveInner::Single(_) => false,
        }
    }
}

} // verus!
