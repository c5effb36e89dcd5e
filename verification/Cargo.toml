[package]
name = "net_utils"
version = "0.1.0"
edition = "2021"
publish = false

[dependencies]
glob = "0.3"
signal-hook = "0.3"

[dependencies.nix]
version = "0.29"
features = ["signal", "process", "fs", "term"]
