//! A bounds-aware cursor over a contiguous byte buffer that reads and writes
//! fixed-width integers in a build-time byte order.
//!
//! Three layers, leaves first:
//! - [`endian`]: the fixed-width codec, pure conversion between an integer and
//!   its byte representation in the selected order;
//! - [`view`]: bounds-checked random access, one value at an arbitrary offset;
//! - [`dataview`]: the cursor, a buffer paired with an advancing offset.

pub mod dataview;
pub mod endian;
pub mod view;

pub use dataview::DataView;
pub use endian::Endian;
pub use view::ByteView;
pub use view::OutOfBounds;
