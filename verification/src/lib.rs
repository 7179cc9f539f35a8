//! Verified core of the Helium oracle services: the decisions of the file
//! uploader, the framing of stored report files, the checks the ingest server
//! applies to incoming reports, and the command model of the bucket tool.

pub mod balance;
pub mod bucket;
pub mod ingest;
pub mod payload;
pub mod source;
pub mod store;
pub mod upload;
