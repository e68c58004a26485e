//! Crash-report browsing for a desktop application backend.
//!
//! The library holds the verified logic behind two host commands — listing
//! the crash-report files found under a base directory and reading one
//! report's text — together with the startup decision that picks safe
//! windowing defaults on Linux. All filesystem and environment access
//! happens outside the library; callers hand in plain values (directory
//! scan results, environment snapshots) and receive plain values back.

pub mod bootstrap;
pub mod reports;
