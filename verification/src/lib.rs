//! Library for enriching a list of pending package upgrades with repository
//! and size metadata taken from a package manager's database files.
//!
//! The pipeline: fetched database archives are sniffed for their compression
//! scheme, decompressed, walked as tar archives, and every embedded `desc`
//! record file is parsed from the tag/value text format into typed records,
//! which are folded into a package-name-keyed index.

pub mod alpm;
pub mod archive;
pub mod db;
pub mod desc;
pub mod fetch;
pub mod filter;
pub mod index;
pub mod localdb;
pub mod paths;
pub mod repo;
pub mod strutil;
pub mod upgrade;
