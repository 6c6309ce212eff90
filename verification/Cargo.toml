[package]
name = "blockdev_metadata"
version = "0.1.0"
edition = "2021"
publish = false

[dependencies]
byteorder = "=1.5.0"
chrono = "=0.4.45"
crc = "=3.4.0"
devicemapper = "=0.28.1"
uuid = { version = "=1.29.0", features = ["v4"] }
