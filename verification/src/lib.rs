//! Support for Mach Objects, used on macOS and iOS.
//!
//! A [`MachArchive`] is a file with one or more objects: a fat container or a single object. A
//! [`MachObject`] tells what its file says of itself: its identifiers, its architecture, where it
//! is loaded, its function symbols and its sections with debug information.
//!
//! The format itself is read by `goblin`. What is stated of the results goes back to the bytes of
//! the file, whose layout is given in [`layout`].
pub mod archive;
pub mod base;
pub mod entry;
pub mod fat;
pub mod ident;
pub mod image;
pub mod indices;
pub mod laws;
pub mod layout;
pub mod object;
pub mod reader;
pub mod statements;
pub mod symbol_map;
pub mod symbols;
pub mod text;

pub use archive::{MachArchive, MachObjectIterator};
pub use fat::{FatMachO, FatMachObjectIterator};
pub use object::{MachError, MachObject};
pub use symbols::MachOSymbolIterator;
