//! Local data store for a reading-progress tracker: a set of configured
//! source sites and the read-progress records admitted against them,
//! persisted as one JSON document.

pub mod document;
pub mod entity;
pub mod store;

pub use document::{Document, Entry, Field, Section};
pub use entity::{ReadRecord, TotalConfig};
pub use store::TotalData;

