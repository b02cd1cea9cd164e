[package]
name = "avstreamlens"
version = "0.1.0"
edition = "2021"
publish = false

[dependencies]
chrono = "0.4"
libc = "0.2"
pcap = "2"
pnet_packet = "0.35"
