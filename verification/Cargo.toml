[package]
name = "dual_deck"
version = "0.1.0"
edition = "2021"
publish = false

[dependencies]
url = "=2.5.8"
reqwest = { version = "=0.13.5", default-features = false }
uuid = { version = "=1.29.0", features = ["v4"] }
chrono = "=0.4.45"
rusqlite = { version = "=0.41.1", features = ["bundled"] }
serde = { version = "=1.0.229", features = ["derive"] }
serde_json = "=1.0.154"
tokio = { version = "=1.54.1", features = ["sync", "time", "rt", "rt-multi-thread", "macros"] }
parking_lot = "=0.12.5"
thiserror = "=2.0.21"
sdl3 = "*"
windows = { version = "*", features = ["Win32_Media_Audio", "Win32_UI_Input_KeyboardAndMouse", "Win32_UI_Shell", "Win32_UI_WindowsAndMessaging"] }
