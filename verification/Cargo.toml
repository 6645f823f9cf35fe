[package]
name = "remouseable"
version = "0.1.0"
edition = "2021"
publish = false

[dependencies]
bytes = "1"
clap = { version = "4", features = ["derive", "env"] }
display-info = "*"
enigo = "*"
evdev = "*"
rpassword = "7"
russh = "*"
tokio = { version = "1", features = ["rt-multi-thread", "net", "time"] }
