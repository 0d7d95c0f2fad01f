[package]
name = "ethtool"
version = "0.1.0"
edition = "2021"
publish = false

[dependencies]
netlink-packet-core = "*"
netlink-packet-generic = "*"
netlink-packet-utils = "*"
