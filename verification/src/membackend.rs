//! Memory-region backends: holders of the region a transport endpoint
//! talks through. The process-private holder lives here; the named
//! shared-memory holder needs the host OS and belongs to the embedder.

pub mod memchunk;
pub mod memholder;
