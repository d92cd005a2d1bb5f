//! Verified core of a stateless SYN port scanner: target and port parsing,
//! the scan order, probe frames and checksums, reply classification,
//! banner analysis, result merging and report formatting.

pub mod text;
pub mod addr;
pub mod network;
pub mod ports;
pub mod permutation;
pub mod checksum;
pub mod random;
pub mod packet;
pub mod results;
pub mod reply;
pub mod scan;
pub mod banner;
pub mod collect;
pub mod report;
pub mod schedule;
pub mod group;
pub mod sweep;
