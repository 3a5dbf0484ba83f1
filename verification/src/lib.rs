//! Read-only access to QCOW2 version 3 disk images: header parsing,
//! guest-to-physical address translation, and positioned reads of the
//! guest's virtual disk.
//!
//! An image is opened from any source of bytes that can be read at a
//! position ([`Pread`]). [`Qcow2::open`] reads and checks the header;
//! [`Qcow2::reader`] gives a [`Reader`], whose `read_at` reads the guest's
//! disk: it finds each cluster through the two levels of tables, fills
//! unallocated clusters with zeros, and keeps the L2 tables that it used
//! last in memory.

pub mod arith;
pub mod cache;
pub mod entry;
pub mod error;
pub mod extension;
pub mod feature;
pub mod guest;
pub mod header;
pub mod io;
pub mod pread;
pub mod read;
pub mod text;

pub use crate::error::Error;
pub use crate::pread::Pread;
pub use crate::read::Qcow2;
pub use crate::read::Reader;
