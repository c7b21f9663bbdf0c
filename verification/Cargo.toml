[package]
name = "trayplay"
version = "0.1.0"
edition = "2021"
publish = false

[dependencies]
tokio = { version = "=1.53.2", features = ["process", "rt-multi-thread", "macros", "sync", "io-util"] }
nix = { version = "=0.31.3", features = ["signal"] }
time = { version = "=0.3.55", features = ["local-offset"] }
freedesktop_entry_parser = "=2.0.1"
zbus = "=5.19.0"
ashpd = { version = "=0.13.13", features = ["file_chooser", "global_shortcuts"] }
ksni = "=0.3.6"
futures = "=0.3.34"
log = "=0.4.34"
env_logger = "=0.11.11"
dirs = "=7.0.0"
