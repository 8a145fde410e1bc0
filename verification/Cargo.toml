[package]
name = "rincron_mini"
version = "0.1.0"
edition = "2021"
publish = false

[dependencies]
dirs = "*"
glob = "*"
inotify = "*"
serde_json = "*"
shell-escape = "*"
signal-hook = "*"
wildmatch = "*"
