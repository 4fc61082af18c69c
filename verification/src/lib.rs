//! Read-only query layer over an immutable, single-file archive container.
//!
//! A container stores a directory tree (files, symbolic links, directories)
//! as a flat entry table whose directory children occupy contiguous index
//! ranges, plus content-addressed payload blobs.  Clients open a container,
//! resolve slash-separated paths to entries, walk directory children by
//! index, and read a file's payload by its content address.

pub mod container;
pub mod entry;
pub mod paths;
pub mod table;
pub mod error;

pub use container::Container;
pub use entry::ContentAddress;
pub use entry::Entry;
pub use entry::EntryKind;
pub use entry::Meta;
pub use error::Error;
