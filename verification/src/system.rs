//! System data: snapshot types and the parsers that turn the kernel's text
//! interfaces into them.

pub mod process;
pub mod network;
pub mod fan;
pub mod memory;
pub mod disk;
pub mod container;
pub mod gpu;

pub use memory::MemorySnapshot;
pub use disk::DiskInfo;
