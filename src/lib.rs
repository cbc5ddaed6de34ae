//! Core logic of a Wayland compositor: double-buffered surface state and
//! roles, the texture cache and its frame bookkeeping, stacking and shell
//! state machines, swapchain and GPU selection policy, session tracking, and
//! the configuration records the core consumes.

pub mod config;
pub mod desktop;
pub mod device;
pub mod formats;
pub mod frame;
pub mod layers;
pub mod lifecycle;
pub mod memory;
pub mod output;
pub mod plugin;
pub mod seat;
pub mod seq_facts;
pub mod session;
pub mod shell;
pub mod socket;
pub mod space;
pub mod surface;
pub mod surface_manager;
pub mod swapchain;
pub mod texture_cache;
pub mod upload;
