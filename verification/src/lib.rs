//! Read access to a local, content-addressed record store and its audit log.
//!
//! The store keeps zlib-compressed JSON objects under a root directory, fanned
//! out over two directory levels by the first characters of their content hash.
//! This crate holds the rules of that layout: where an object lives, how its
//! bytes become a structured value, how a listing is ordered, what a status
//! snapshot reports and how the audit log grows. It touches no file itself;
//! callers probe the file system and hand in what they found.

pub mod address;
pub mod audit;
pub mod codec;
pub mod json;
pub mod lookup;
pub mod order;
pub mod proxy;
pub mod reader;
pub mod recency;
pub mod records;
pub mod status;
