[package]
name = "netty"
version = "0.2.6"
edition = "2021"
publish = false

[dependencies]
bytes = "1"
futures-util = "0.3"
http = "1"
http-body = "1"
http2 = "*"
http3 = "0.0"
http3-datagram = "0.0"
tokio = { version = "1", features = ["sync", "io-util", "rt-multi-thread", "time"] }
tokio-util = "0.7"
