[package]
name = "asst"
version = "0.1.0"
edition = "2021"
publish = false

[dependencies]
anyhow = "1"
chrono = { version = "0.4", features = ["serde"] }
chrono-tz = "0.10"
clap = { version = "4", features = ["derive"] }
futures-util = "0.3"
gtk4-layer-shell = "*"
ksni = "0.3"
relm4 = { version = "*", features = ["libadwaita"] }
serde = { version = "1", features = ["derive"] }
serde_json = "1"
tokio = { version = "1", features = ["macros", "rt-multi-thread", "time"] }
toml = "*"
zbus = { version = "5", default-features = false, features = ["tokio"] }
