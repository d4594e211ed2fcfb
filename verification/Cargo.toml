[package]
name = "karaoke_core"
version = "0.1.0"
edition = "2021"
publish = false

[dependencies]
cpal = "*"
dunce = "1"
http-range = "0.1"
lofty = "*"
log = "0.4"
md5 = "*"
num_cpus = "1"
percent-encoding = "2"
ringbuf = "0.4"
rubato = "0.16"
serde = { version = "1", features = ["derive"] }
tokio = { version = "1", features = ["rt"] }
unicode-normalization = "0.1"
urlencoding = "2"
