//! The memory and disk records of the headless server's packets. The
//! program serialises them, one JSON line per refresh.

use vstd::prelude::*;

use crate::system::disk::DiskInfo;
use crate::system::memory::MemorySnapshot;

verus! {

/// Memory figures as the server sends them, in bytes.
#[derive(Clone, Copy, Debug, PartialEq, Eq, Structural)]
pub struct MemData {
    pub used: u64,
    pub free: u64,
    pub total: u64,
    pub cached: u64,
    pub buffers: u64,
    pub swap_used: u64,
    pub swap_total: u64,
}

/// One mounted file system as the server sends it.
#[derive(Clone, Debug)]
pub struct DiskData {
    pub name: String,
    pub mount: String,
    pub used: u64,
    pub total: u64,
    pub fs: String,
}

impl MemData {
    /// The record of a memory snapshot: every figure carried over.
    pub fn of(s: &MemorySnapshot) -> (r: MemData)
        ensures
            r.used == s.used && r.free == s.free && r.total == s.total,
            r.cached == s.cached && r.buffers == s.buffers,
            r.swap_used == s.swap_used && r.swap_total == s.swap_total,
    {
        MemData {
            used: s.used,
            free: s.free,
            total: s.total,
            cached: s.cached,
            buffers: s.buffers,
            swap_used: s.swap_used,
            swap_total: s.swap_total,
        }
    }
}

impl DiskData {
    /// The record of a disk: every field carried over.
    pub fn of(d: &DiskInfo) -> (r: DiskData)
        ensures
            r.name@ == d.name@ && r.mount@ == d.mount@ && r.fs@ == d.fs@,
            r.used == d.used && r.total == d.total,
    {
        DiskData {
            name: d.name.clone(),
            mount: d.mount.clone(),
            used: d.used,
            total: d.total,
            fs: d.fs.clone(),
        }
    }
}

} // verus!
