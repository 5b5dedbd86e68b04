//! The rules of a Plaine miner and a Plaine node, as verified code.
//!
//! `miner` holds what a mining client decides: how it reads a stratum server's
//! lines, lays out nonces, keeps jobs, backs off and reads its command line.
//! `node` holds what a node decides: its configuration, the ring of unsealed
//! blocks, the note index, the answers of its RPC surface and its log lines.
//! `text` holds the string functions that both need.

pub mod text;
pub mod miner;
pub mod node;
