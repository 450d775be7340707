//! Documentation of a directory for data collection: what is listed, how it is
//! hashed, how integrity artifacts found on the way are verified, and the text
//! of the report.
pub mod artifact;
pub mod checksum;
pub mod clock;
pub mod config;
pub mod digest;
pub mod host;
pub mod interview;
pub mod keys;
pub mod naming;
pub mod report;
pub mod scan;
pub mod signature;
pub mod text;
pub mod verification;
pub mod verify;
