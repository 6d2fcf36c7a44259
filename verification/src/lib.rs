//! Verified core of a per-channel orchestration daemon: window geometry and
//! the window-manager policy, the plugin registry, the helper-process
//! bookkeeping and the client session protocol, each as plain data with
//! proved contracts.

pub mod api;
pub mod config;
pub mod event_loop;
pub mod geometry;
pub mod plugin_system;
pub mod process;
pub mod screen;
pub mod search;
pub mod server;
pub mod text;
pub mod window_manager;
