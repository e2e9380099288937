//! Listing of compute instances from a zone-grouped, paginated listing API.
//!
//! The crate decodes raw JSON instance objects into validated
//! [`records::Instance`] values, walks the paginated, zone-keyed listing
//! responses page by page, and aggregates per-record decode failures into a
//! single all-or-nothing outcome: a listing either returns the complete,
//! fully decoded record set or one error.

pub mod compute;
pub mod config;
pub mod http;
pub mod json;
pub mod records;
pub mod strutil;
