//! The call logger and transaction record shared by the fuzzer binaries.

pub mod logger;
pub mod transaction;
