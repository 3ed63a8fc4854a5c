//! Periodic index of package files: a hash cache with lookup-or-record
//! semantics, a scanner that groups discovered files and finds stale cache
//! records, and a rate-limited, single-flight coordinator that drives them.
pub mod class;
pub mod constant;
pub mod hash_service;
pub mod laws;
pub mod daemon;
pub mod scanner;

pub use class::{EptFileNode, LazyDeleteNode, ListedFile, PackageGroup};
pub use constant::{PROTOCOL, UPDATE_INTERVAL};
pub use daemon::{Command, Daemon};
pub use hash_service::HashService;
pub use scanner::{ScanError, Scanner};
