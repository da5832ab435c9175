[package]
name = "tuipmgr"
version = "0.1.0"
edition = "2021"
publish = false

[dependencies]
sysconf = "0.3"
serde = { version = "1", features = ["derive"] }
serde_json = "1"
thiserror = "1"
procfs = "0.12"
sysinfo = "0.29"
tui = "0.19"
crossterm = "0.25"
prettytable-rs = "0.10"
actix-web = "4"
actix-cors = "0.6"
