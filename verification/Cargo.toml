[package]
name = "miz"
version = "0.1.0"
edition = "2021"
publish = false

[dependencies]
alpm = "5"
alpm-sys = "5"
clap = { version = "4", features = ["derive"] }
clap_complete = "4"
console = "0.15"
ctrlc = "3"
indicatif = "0.17"
libc = "0.2"
object = "0.36"
pacmanconf = "3"
regex = "1"
serde = { version = "1", features = ["derive"] }
serde_json = "1"
thiserror = "2"
toml = "0.8"
tracing = "0.1"
tracing-subscriber = { version = "0.3", features = ["env-filter"] }
zbus = "5"
