[package]
name = "ohmyeyes"
version = "0.2.0"
edition = "2021"
publish = false

[dependencies]
auto-launch = "*"
directories = "*"
eframe = { version = "*", default-features = false, features = ["default_fonts", "glow", "wayland"] }
image = { version = "*", default-features = false, features = ["png", "jpeg", "gif", "webp"] }
interprocess = "*"
resvg = "*"
rfd = "*"
rustix = { version = "*", features = ["fs"] }
serde = { version = "*", features = ["derive"] }
serde_json = "*"
single-instance = "*"
smithay-client-toolkit = { version = "*", default-features = false, features = ["calloop"] }
tempfile = "*"
thiserror = "*"
tracing = "*"
tracing-appender = "*"
tracing-subscriber = { version = "*", features = ["env-filter"] }
wayland-client = "*"
windows-sys = { version = "*", features = ["Win32_Devices_Display", "Win32_Foundation", "Win32_Graphics_Gdi", "Win32_System_LibraryLoader", "Win32_System_RemoteDesktop", "Win32_UI_WindowsAndMessaging"] }
