[package]
name = "jbar"
version = "0.1.0"
edition = "2021"
publish = false

[dependencies]
async-channel = "2"
calloop = "*"
calloop-wayland-source = "*"
chrono = "0.4"
dirs = "*"
gio = "*"
glib = "*"
gtk4 = "*"
gtk4-layer-shell = "*"
kdl = { version = "6", features = ["v1"] }
libc = "0.2"
niri-ipc = "*"
serde = { version = "1", features = ["derive"] }
serde_json = "1"
toml = "*"
wayland-client = "0.31"
wayland-protocols = { version = "0.32", features = ["client", "staging"] }
wayland-protocols-misc = { version = "0.3", features = ["client"] }
xkbcommon = "*"
