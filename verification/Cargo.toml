[package]
name = "razorshot"
version = "0.1.0"
edition = "2021"
publish = false

[dependencies]
arboard = "3"
ashpd = "0.9"
cairo-rs = { version = "0.20", features = ["png"] }
chrono = "0.4"
clap = { version = "4", features = ["derive"] }
dirs = "5"
env_logger = "0.11"
gdk4 = "0.9"
gio = "0.20"
glib = "0.20"
gtk4 = { version = "0.9", features = ["v4_10"] }
image = { version = "0.25", default-features = false, features = ["jpeg"] }
ksni = "0.2"
log = "0.4"
pango = "0.20"
pangocairo = "0.20"
serde = { version = "1", features = ["derive"] }
tokio = { version = "1", features = ["rt-multi-thread"] }
toml = "0.8"
