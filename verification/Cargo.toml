[package]
name = "neutron_communicator"
version = "0.1.0"
edition = "2021"
publish = false

[dependencies]
ring = "*"
data-encoding = "*"
rand = "*"
serde = "*"
serde_derive = "*"
serde_json = "*"
reqwest = { version = "*", features = ["blocking"] }
fs_extra = "*"
tempfile = "*"
clap = "*"
log = "*"
env_logger = "*"
lazy_static = "*"
paho-mqtt = "*"
