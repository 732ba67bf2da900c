[package]
name = "stolas"
version = "0.1.0"
edition = "2021"
publish = false

[dependencies]
byteorder = "1"
bytes = "1"
shell-escape = "0.1"
serde = { version = "1", features = ["derive"] }
serde_json = "1"
chrono = { version = "0.4", features = ["serde"] }
thiserror = "2"
clap = { version = "4", features = ["derive", "env"] }
tokio = { version = "1", features = ["full"] }
tokio-util = { version = "0.7", features = ["codec"] }
futures-util = { version = "0.3", features = ["sink"] }
rustfft = "6"
num-complex = "0.4"
tracing = "0.1"
tracing-subscriber = "0.3"
color-eyre = "0.6"
dotenvy = "0.15"
plotly = "*"
