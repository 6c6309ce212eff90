//! On-disk metadata of a pooled block device: the static header that marks a
//! device as belonging to a pool, and the rotating, checksummed metadata
//! regions that follow it.
//!
//! Both are kept in two copies. Reading finds the copy that is whole and
//! writes the other anew; saving writes both copies of the older of two
//! slots, each made durable before the next is begun.
//!
//! The device is a [`stream::ByteStream`]. What the operations do is stated
//! for streams that are `predictable`, such as [`stream::MemStream`]; the
//! modules `laws` and `region_laws` hold what follows for the operations
//! taken together.

pub mod bda;
pub mod buffer;
pub mod checksum;
pub mod endian;
pub mod error;
pub mod laws;
pub mod mda;
pub mod region_laws;
pub mod static_header;
pub mod stream;
pub mod uuid_text;

pub use crate::bda::{MetadataLocation, BDA};
pub use crate::error::{Invalid, MetadataError, MetadataResult};
pub use crate::mda::{validate_mda_size, MDAHeader, MDARegions, Timestamp, MIN_MDA_SECTORS};
pub use crate::static_header::{DevUuid, PoolUuid, StaticHeader};
pub use crate::stream::{ByteStream, IoError, MemStream};
