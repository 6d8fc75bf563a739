//! The static shapes that generated per-chip metadata source files use:
//! the same records as [`crate::types`], but borrowed from static tables.

use vstd::prelude::*;

verus! {

/// One region of the memory map, as a static table entry.
pub struct MemoryRegion {
    pub name: &'static str,
    pub kind: &'static str,
    pub address: u64,
    pub size: u64,
}

/// One resolved peripheral, as a static table entry.
pub struct Peripheral {
    pub name: &'static str,
    pub address: u64,
    pub kind: &'static str,
    pub version: &'static str,
}

/// One pin of a package layout, as a static table entry.
pub struct Pin {
    pub position: &'static str,
    pub signals: &'static [&'static str],
}

/// One named pin package, as a static table entry.
pub struct Package {
    pub name: &'static str,
    pub pins: &'static [Pin],
}

} // verus!
