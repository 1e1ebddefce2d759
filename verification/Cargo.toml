[package]
name = "crude"
version = "0.1.0"
edition = "2021"
publish = false

[dependencies]
anstream = "0.6"
chrono = "0.4"
clap = { version = "4", features = ["derive", "env"] }
clap-verbosity-flag = { version = "3", features = ["tracing"] }
colorchoice-clap = "1"
eyre = "0.6"
hex = "0.4"
native-tls = "0.2"
owo-colors = "4"
postgres = "0.19"
postgres-native-tls = "0.5"
proc-exit = "2"
rusqlite = { version = "0.32", features = ["bundled"] }
sha2 = "0.10"
tracing = "0.1"
tracing-subscriber = "0.3"
