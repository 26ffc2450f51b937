[package]
name = "llmchat"
version = "0.1.0"
edition = "2021"
publish = false

[dependencies]
anyhow = "1"
atty = "0.2"
chrono = "0.4"
clap = { version = "4", features = ["derive"] }
colored = "=2.2.0"
comfy-table = "=7.2.2"
crossterm = "0.28"
futures-util = "0.3"
gio = "0.20"
hex = "=0.4.3"
indicatif = "0.17"
macmon = "=0.7.0"
ratatui = "0.29"
reqwest = { version = "0.12", default-features = false, features = ["json", "stream", "rustls-tls"] }
rustyline = "15"
serde = { version = "1", features = ["derive"] }
serde_json = "=1.0.154"
serde_yaml = "0.9"
sha2 = "=0.10.9"
syntect = { version = "=5.3.0", default-features = false, features = ["default-fancy"] }
tempfile = "3"
termbg = "0.6"
tokio = { version = "1", features = ["full"] }
tui-textarea = "0.7"
