//! Keyed challenge-response codes: SHA-1, HMAC-SHA1, hex and modhex
//! encodings, the policy that locates a slot's secret, and the command line
//! and install paths of the tool built on them.

pub mod sha1;
pub mod hmac;
pub mod codec;
pub mod secret;
pub mod cli;
pub mod install;
