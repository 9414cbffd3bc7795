//! Audio mastering worker library: job records, buffer layout, repair and
//! mastering decisions, codec and object-store naming.

pub mod types;
pub mod text;
pub mod buffer;
pub mod fix;
pub mod codec;
pub mod store;
pub mod mastering;
pub mod analysis;
