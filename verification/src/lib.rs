//! A low-latency transport core: a single-producer / multi-consumer
//! latest-value register and a single-producer / single-consumer bounded
//! ring, both modelled over an explicit memory region, together with a
//! thin timestamping log client and its batching backend policy.

pub mod error;
pub mod logclient;
pub mod logbackend;
pub mod membackend;
mod modmath;
pub mod sync;
