[package]
name = "network_analyzer"
version = "0.1.0"
edition = "2021"
publish = false

[dependencies]
chrono = "*"
etherparse = "*"
pcap = "*"
