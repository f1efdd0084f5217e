[package]
name = "shoka"
version = "0.1.0"
edition = "2021"
publish = false

[dependencies]
anyhow = "1"
clap = { version = "4", features = ["derive", "env"] }
clap_complete = "4"
crossterm = { version = "0.29", default-features = false, features = ["events"] }
directories = "=6.0.0"
gix = { version = "=0.88.0", default-features = false, features = ["basic", "revision", "status", "sha1"] }
inquire = { version = "0.9", default-features = false, features = ["crossterm", "fuzzy"] }
kaishin = { version = "=0.7.5", default-features = false }
libc = "0.2"
nucleo = "=0.5.0"
open = "5"
owo-colors = "4"
regex = "=1.13.1"
rustls = { version = "0.23", default-features = false, features = ["ring", "std", "tls12"] }
serde = { version = "1", features = ["derive"] }
teravars = { version = "=0.2.2", features = ["merge"] }
tokio = { version = "1", features = ["macros", "process", "rt-multi-thread", "sync", "time"] }
toml = "*"
tracing = "0.1"
tracing-subscriber = { version = "0.3", default-features = false, features = ["env-filter", "fmt"] }
walkdir = "2"
which = "*"
