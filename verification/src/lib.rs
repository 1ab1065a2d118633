pub mod apps;
pub mod bridge;
pub mod config;
pub mod core_protocol;
pub mod dbus;
pub mod events;
pub mod hyprland;
pub mod ipc;
pub mod launch;
pub mod media;
pub mod mpris;
pub mod mpris_events;
pub mod named;
pub mod notifications;
pub mod protocol;
pub mod session;
pub mod telemetry;
pub mod text;
