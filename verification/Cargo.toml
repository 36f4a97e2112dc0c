[package]
name = "ldk_node"
version = "0.1.0"
edition = "2021"
publish = false

[dependencies]
bdk_chain = "=0.23.4"
bdk_wallet = "=3.2.0"
bitcoin = "=0.32.102"
lightning = ">=0.3.0-0, <0.3.0-rc2"
