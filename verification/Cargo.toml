[package]
name = "mysql-protocol"
version = "0.1.0"
edition = "2021"
publish = false

[dependencies]
byteorder = "=1.5.0"
bytes = "=1.12.1"
mysql_common = "=0.24.1"
tokio = { version = "=1.54.1", default-features = false, features = ["io-util", "net"] }
