[package]
name = "wluma"
version = "0.1.0"
edition = "2021"
publish = false

[dependencies]
anyhow = "1"
ash = { version = "0.38", default-features = false, features = ["linked"] }
chrono = "0.4"
dbus = "0.9"
ddc-hi = "0.4"
env_logger = "0.11"
futures-util = "0.3"
inotify = "0.10"
itertools = "0.14"
lazy_static = "1"
log = "0.4"
macro_rules_attribute = "0.2"
serde = { version = "1", features = ["derive"] }
serde_yaml = "0.9"
smol = "2"
smol-macros = "0.1"
toml = "0.8"
v4l = "0.14"
wayland-client = "0.31"
wayland-protocols = { version = "0.32", features = ["client", "unstable", "staging"] }
wayland-protocols-wlr = { version = "0.3", features = ["client"] }
xdg = "2.5"
