[package]
name = "radio"
version = "0.1.0"
edition = "2021"
publish = false

[dependencies]
qrcode = { version = "=0.14.1", default-features = false }
tiny_http = "=0.12.0"
local-ip-address = "=0.6.13"
serde = { version = "=1.0.229", default-features = false, features = ["alloc", "derive"] }
picoserve = { version = "=0.20.1", default-features = false, features = ["alloc", "embassy", "json"] }
embassy-time = "=0.5.1"
embassy-sync = "=0.8.0"
embassy-futures = "=0.1.2"
embassy-net = { version = "=0.9.1", features = ["tcp", "udp", "dns", "dhcpv4", "proto-ipv4", "medium-ethernet", "multicast"] }
embassy-executor = "=0.10.0"
embedded-hal = "=1.0.0"
embedded-io-async = "=0.7.0"
embedded-storage = "=0.3.2"
embedded-graphics = "=0.8.2"
mipidsi = "=0.10.0"
portable-atomic = "=1.15.0"
static_cell = "=2.1.1"
