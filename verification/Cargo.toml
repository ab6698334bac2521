[package]
name = "display_cli"
version = "0.1.0"
edition = "2021"
publish = false

[dependencies]
anyhow = "*"
clap = { version = "*", features = ["derive"] }
directories = "*"
serde = { version = "*", features = ["derive"] }
serde_json = "*"
thiserror = "*"
toml = "*"
windows = { version = "*", features = ["Win32_Devices_Display", "Win32_Graphics_Gdi", "Win32_Foundation"] }
