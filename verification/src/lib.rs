//! A verified core for a BIER (Bit Index Explicit Replication, RFC 8296)
//! forwarding node.
//!
//! The crate covers the 44-byte BIER header wire format with checked field
//! accessors, the per-address-family forwarding table that maps a multicast
//! destination to an encoded header and a packet counter, the configuration
//! synchronizer that populates those tables, the two per-frame transforms
//! (egress encapsulation and ingress decapsulation, both pure functions over
//! byte buffers), and a read-only monitoring projection.
//!
//! Frame interception, configuration-file parsing and the presentation layer
//! are external collaborators and live outside this library.

pub mod bier;
pub mod table;
pub mod egress;
pub mod ingress;
pub mod text;
pub mod config;
pub mod mapping;
pub mod monitor;
