//! A minimal rollup stack for a programmable trading venue: two deterministic
//! instruction-set interpreters with content-addressed program roots, their
//! line-oriented compilers, a two-lane mempool with nonce windowing and age
//! pruning, a round-robin leader schedule, a state-root agreement check with
//! commit-and-anchor, and a declarative venue-configuration language with a
//! validator and a deterministic manifest emitter.
pub mod asset;
pub mod anchor;
pub mod assetscript;
pub mod compiler;
pub mod consensus;
pub mod curve;
pub mod demo;
pub mod digest;
pub mod hotshot;
pub mod mempool;
pub mod schedule;
pub mod text;
pub mod venue;
pub mod venue_manifest;
pub mod venue_parse;

