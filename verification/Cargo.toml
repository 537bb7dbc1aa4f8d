[package]
name = "vantage"
version = "0.1.0"
edition = "2021"
publish = false

[dependencies]
bincode = { version = "=2.0.1", features = ["serde"] }
enigo = { version = "=0.6.1", default-features = false, features = ["serde", "x11rb"] }
openh264 = "=0.9.9"
serde = { version = "=1.0.229", features = ["derive"] }
softbuffer = "=0.4.8"
tokio = { version = "=1.54.1", features = ["io-util", "macros", "net", "rt-multi-thread", "sync"] }
windows = { version = "=0.58.0", features = ["Win32_Media_MediaFoundation", "Win32_System_Com"] }
windows-sys = { version = "=0.61.2", features = ["Win32_UI_HiDpi"] }
winit = "=0.30.13"
