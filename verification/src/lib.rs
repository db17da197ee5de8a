//! Provisioning of storage-backed virtual disks for remote machines.
//!
//! The disks of a machine are read from what a probe printed (`disk`), each is
//! given an identity that its device links must confirm, the machine is taken
//! into the catalog (`machine`, `settings`) and a volume is planned for each
//! disk. Commands are run under a check-then-act policy (`base`). The library
//! decides and computes; running commands and reading and writing stores and
//! files is left to its caller.

pub mod attributes;
pub mod base;
pub mod disk;
pub mod image;
pub mod incus;
pub mod machine;
pub mod pool;
pub mod sanoid;
pub mod settings;
pub mod text;

pub use base::{chroot, get, perform, pkexec, success_stauts, wait, which, zfs};
