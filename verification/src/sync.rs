//! Lock-free-style transport primitives, modelled over an explicit
//! in-memory region: a single-producer / multi-consumer latest-value
//! register and a single-producer / single-consumer bounded ring.

pub mod lfringspsc;
pub mod lfspmc;
