[package]
name = "hp"
version = "0.1.0"
edition = "2021"
publish = false

[dependencies]
anyhow = "=1.0.104"
chrono = { version = "=0.4.45", features = ["serde"] }
clap = { version = "=4.6.7", features = ["derive"] }
clap_complete = "=4.6.11"
comfy-table = "=7.2.2"
config = "=0.14.1"
edit = "=0.1.5"
exec = "=0.3.1"
gethostname = "=0.4.3"
home = "=0.5.12"
reqwest = { version = "=0.11.27", features = ["json"] }
rpassword = "=7.5.4"
serde = { version = "=1.0.229", features = ["derive"] }
serde_json = "=1.0.154"
shlex = "=1.3.0"
skim = "=0.10.4"
tokio = { version = "=1.54.1", features = ["rt-multi-thread", "macros"] }
whoami = "=1.6.1"

[dev-dependencies]
regex = "=1.13.1"
