[package]
name = "pvm"
version = "0.1.0"
edition = "2021"
publish = false

[dependencies]
chrono = "=0.4.45"
clap = { version = "=4.6.7", features = ["derive", "env"] }
directories = "=6.0.0"
flate2 = "=1.1.10"
hex = "=0.4.3"
indicatif = "=0.18.6"
regex = "1"
rust-ini = "=0.21.3"
semver = "=1.0.28"
serde = { version = "=1.0.229", features = ["derive"] }
serde_json = "=1.0.154"
sha2 = "=0.11.1"
tar = "=0.4.46"
thiserror = "=2.0.21"
toml = "=1.1.8"
ureq = { version = "=3.5.1", default-features = false, features = ["json"] }
url = "=2.5.8"
windows-sys = { version = "=0.61.2", features = ["Win32_Foundation", "Win32_System_Console", "Win32_UI_WindowsAndMessaging"] }
winreg = "=0.56.0"
zip = { version = "=9.2.2", default-features = false, features = ["deflate-flate2"] }
