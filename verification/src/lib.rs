//! Resilient fetch-and-assemble engine of a container aggregation gateway.
//!
//! The gateway reads advertisements, images and videos from three upstream
//! services, groups them by container identifier and joins them into
//! containers. This crate holds the decisions of that engine: how a reply is
//! classified, when a request is retried and after which delay, how raw
//! records become domain records, how they are grouped and assembled, and how
//! assembled containers are cached.

pub mod identifier;
pub mod repository;
pub mod service;
pub mod types;
