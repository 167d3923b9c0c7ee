[package]
name = "entelur"
version = "0.1.0"
edition = "2021"
rust-version = "1.95"
publish = false

[dependencies]
chrono = "=0.4.45"
clap = { version = "=4.6.7", features = ["derive"] }
dotenv = "=0.15.0"
dptree = "=0.5.1"
log = "=0.4.34"
pretty_env_logger = "=0.5.0"
rusqlite = "=0.41.0"
# Not used by this crate: teloxide-core asks for takecell 0.1, and 0.1.2 needs
# a newer compiler than the rust-version above, so 0.1.1 is held here.
takecell = "=0.1.1"
teloxide = { version = "=0.17.0", features = ["macros"] }
tokio = { version = "=1.54.1", features = ["rt-multi-thread", "macros", "sync", "time"] }
