[package]
name = "bagimages"
version = "0.1.0"
edition = "2021"
publish = false

[dependencies]
regex = "*"
image = { version = "*", default-features = false, features = ["png"] }
rosbag = "*"
clap = { version = "*", features = ["derive"] }
crossterm = "*"
thiserror = "*"
