//! The icon of a service in the Windows tray.
pub mod config;
pub mod daemon;
pub mod install;
pub mod status;
