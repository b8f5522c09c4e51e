//! Zero-copy exchange of columnar data across a runtime boundary, following
//! the Arrow C Data Interface: schema descriptors, typed arrays, record
//! batches and batch streams are translated into the C-ABI descriptor
//! structs and back, with the release-callback ownership protocol and
//! tag-based capability detection of host values.

pub mod array;
pub mod batch;
pub mod bits;
pub mod capability;
pub mod convert;
pub mod error;
pub mod host;
pub mod schema;
pub mod stream;
