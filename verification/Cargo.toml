[package]
name = "arp_scan"
version = "0.1.0"
edition = "2021"
publish = false

[dependencies]
ansi_term = "*"
clap = "*"
csv = "*"
ctrlc = "*"
dns-lookup = "*"
ipnetwork = "*"
pnet = "*"
pnet_datalink = "*"
rand = "*"
serde = { version = "*", features = ["derive"] }
serde_json = "*"
serde_yaml = "*"
