[package]
name = "yumi"
version = "0.1.0"
edition = "2021"
publish = false

[dependencies]
fluent = "=0.17.0"
fluent-syntax = "=0.12.0"
intl-memoizer = "=0.5.3"
unic-langid = "=0.9.6"
once_cell = "=1.21.4"
log = "=0.4.35"
anyhow = "=1.0.104"
serde = { version = "=1.0.229", features = ["derive"] }
serde_yaml = "=0.9.34"
nix = { version = "=0.31.3", features = ["fs", "user", "inotify"] }
libc = "=0.2.191"
tokio = { version = "=1.54.1", features = ["rt", "rt-multi-thread", "time", "sync"] }
mio = { version = "=1.2.4", features = ["os-poll", "os-ext"] }
aya = "=0.13.1"
kobject-uevent = "=0.2.0"
netlink-sys = "=0.9.0"
clap = { version = "=4.6.7", features = ["derive"] }
chrono = "=0.4.45"
toml = "=1.1.8"
xshell = "=0.2.7"
zip = { version = "=9.2.2", default-features = false, features = ["deflate"] }
fs_extra = "=1.3.0"
