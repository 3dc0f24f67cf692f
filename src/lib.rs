//! Control bridge between an undocumented home-automation web UI and a
//! stable device control surface: stable device keys, the command table,
//! the device registry, control planning, the session retry policy and the
//! discovery rules.
pub mod api;
pub mod classify;
pub mod config;
pub mod command_mapper;
pub mod device;
pub mod discovery;
pub mod session;
pub mod state_manager;
pub mod table;
pub mod text;
pub mod transport;
