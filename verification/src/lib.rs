//! Logic of a desktop reminder for the 20-20-20 rule: what to show, where and when.
//!
//! The library decides; the program around it talks to the desktop.

use vstd::prelude::*;

pub mod app;
pub mod app_laws;
pub mod app_startup;
pub mod app_state;
pub mod binary_float;
pub mod config;
pub mod default_eye;
pub mod image_asset;
pub mod ipc;
pub mod launch;
pub mod limited_read;
pub mod linux;
pub mod linux_daemon;
pub mod linux_wayland;
pub mod monitors;
pub mod plain_svg;
pub mod resample;
pub mod scheduler;
pub mod text;
pub mod time;
pub mod wayland_overlay;
pub mod windows;
pub mod windows_overlay;

verus! {

/// What another instance, the tray menu or the system asks of the running instance.
#[derive(Debug, Clone, Copy, PartialEq, Eq, Structural)]
pub enum AppCommand {
    OpenSettings,
    RunInBackground,
    ShowNow,
    ToggleReminders,
    DisplayTopologyChanged,
    SessionNotificationsDelayed,
    SessionNotificationsReady,
    SessionNotificationsUnavailable(u32),
    SystemPause(SystemPauseReason),
    SystemResume(SystemPauseReason),
    Quit,
}

/// Why the system wants reminders to pause.
#[derive(Debug, Clone, Copy, PartialEq, Eq, Structural)]
pub enum SystemPauseReason {
    Power,
    Session,
}

} // verus!
