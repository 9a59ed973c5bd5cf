[package]
name = "eeg_pipeline"
version = "0.1.0"
edition = "2021"
publish = false

[dependencies]
chrono = "0.4"
crossbeam-channel = "0.5"
edfplus = "*"
lsl = "*"
rustfft = "6"
serde = { version = "1", features = ["derive"] }
tauri = { version = "2", default-features = false }
thiserror = "*"
tokio = { version = "1", features = ["sync", "rt", "rt-multi-thread", "time", "macros"] }
