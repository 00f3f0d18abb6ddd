//! Repository layer: what is decided about requests to the upstream services.
//!
//! The layer classifies replies, retries transient failures and describes the
//! records as the upstream services send them. It does no data transformation
//! beyond that.

pub mod advertisement;
pub mod client;
pub mod image;
pub mod video;
