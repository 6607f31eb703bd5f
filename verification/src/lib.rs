//! A verified model of a persistent-memory (PMEM) file abstraction.
//!
//! A [`libpmem::file_handle`] maps a file of a persistent-memory device into
//! a byte region and offers durable range reads and writes against it: a
//! write does not return success until the written range has been persisted
//! to media. The device itself is modelled by [`platform::PmemDevice`],
//! which holds the durable bytes of every file, records each native step
//! (map, copy, flush, sync, unmap) in order, and can inject copy faults so
//! that callers can exercise every failure path.

pub mod libpmem;
pub mod platform;
pub mod region;
