//! Parser for a kernel boot command line.
//!
//! A command line is a single whitespace-delimited string of tokens. A token
//! with an `=` is a `key=value` option; a token without one is a bare flag.
//! Known options and flags fill the fields of [`KernelArgs`]; everything else
//! is silently ignored, so a malformed command line can never fail a boot.

pub mod args;
pub mod laws;
pub mod model;
pub mod numbers;

pub use args::parse_flag;
pub use args::parse_key_value;
pub use args::KernelArgs;
