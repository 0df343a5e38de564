//! Verified core of an AC power-flow solver: the layout of the unknown
//! vector, network validation, grouping of co-located generators and the
//! reader of the PSS/E RAW case-file records.

pub mod index;
pub mod validate;
pub mod colocated;
pub mod lexer;
pub mod raw;
pub mod tables;
