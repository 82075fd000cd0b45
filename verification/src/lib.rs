//! Host-side core of a sandboxed lint-plugin runner: a registry of plugins
//! and their rules, a diagnostics buffer filled through intrinsic report
//! calls, and the decision logic of the runner/proxy message protocol.

mod ordered_map;
pub mod diagnostics;
pub mod laws;
pub mod registry;
pub mod proxy;
pub mod runner;
