[package]
name = "libredefender"
version = "0.1.0"
edition = "2021"
publish = false

[dependencies]
anyhow = "*"
atoi = "=3.1.0"
chrono = { version = "=0.4.45", features = ["serde"] }
chrono-humanize = "*"
clamav-rs = "*"
clap = { version = "=4.6.7", features = ["derive"] }
clap_complete = "*"
colored = "*"
config = "=0.15.27"
crossbeam-channel = "*"
dirs = "*"
env_logger = "*"
glob = "=0.3.4"
human-size = "=0.4.4"
ioprio = "=0.2.0"
libc = "*"
log = "*"
memchr = "=2.8.3"
notify-rust = "*"
num_cpus = "*"
num-format = "*"
rand = "=0.10.3"
serde = { version = "*", features = ["derive"] }
serde_json = "*"
starship-battery = "*"
v_htmlescape = "=0.17.0"
walkdir = "*"
