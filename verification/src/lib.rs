//! A uniform contract over byte-addressable, block-erasable storage media.
//!
//! The library states, as verified contracts, the taxonomy of write
//! repeatability behaviors, the alignment and bounds invariants of every
//! operation, and the capability adapters that project a native device
//! capability onto the uniform [`Storage`](contract::Storage) contract.

pub mod behavior;
pub mod contract;
pub mod mem;
pub mod model;
pub mod nor;
pub mod profile;

pub use behavior::Reliability;
pub use behavior::WriteBehavior;
pub use contract::Storage;
pub use mem::MemStorage;
pub use nor::MultiWriteNorFlash;
pub use nor::NorFlash;
pub use profile::DeviceProfile;
pub use profile::StorageError;
