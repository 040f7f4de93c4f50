[package]
name = "pesu_wifi"
version = "3.1.0"
edition = "2021"
publish = false

[dependencies]
quick-xml = "0.36"
serde = { version = "1", features = ["derive"] }
serde_json = "1"
clap = { version = "4", features = ["derive"] }
ureq = "2"
rpassword = "7"
fs2 = "0.4"
libc = "0.2"
chrono = "0.4"
windows-sys = { version = "0.59", features = ["Win32_Foundation", "Win32_NetworkManagement_WiFi", "Win32_System_Power"] }
