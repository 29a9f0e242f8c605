//! Hosting of pluggable visual modules and dynamic post-processing shader chains.
//!
//! The module side keeps a registry of spawners per module class, brokers
//! spawn and resize requests into routed per-spawner events, and owns the
//! parts of every module root so that destroying a root destroys its parts.
//! The rendering side caches compiled pipelines per chain identifier and plans
//! the ping-pong passes of a chain for each frame.
pub mod module;
pub mod registry;
pub mod host;
pub mod broker;
pub mod noise;
pub mod pong;
pub mod dispatch;
pub mod rendering;
pub mod chain_node;
