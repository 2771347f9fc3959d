//! Decoder for the plugin container format: a file header record followed by
//! top-level groups of records, all little-endian and size-delimited.

pub mod bytes;
pub mod codec;
pub mod common;
pub mod error;
pub mod file_header;
pub mod flags;
pub mod group;
pub mod plugin;
pub mod record;
pub mod schema;
pub mod subrecord;

pub use crate::common::{FormId, TypeCode};
pub use crate::error::Error;
pub use crate::file_header::{FileHeaderData, Hedr, MasterFile};
pub use crate::flags::{Flags, PluginFlags, RecordFlags};
pub use crate::group::{Group, GroupData, GroupType, Label};
pub use crate::plugin::{plugin, Plugin};
pub use crate::record::{FileHeaderRecord, GenericRecord, Record, RecordData, RecordHeader};
