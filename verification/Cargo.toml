[package]
name = "lumameter"
version = "0.1.0"
edition = "2021"
publish = false

[dependencies]
sysfs_gpio = "*"
uvc = "*"
clap = "2"
anyhow = "1"
