[package]
name = "cluster_manager"
version = "0.1.0"
edition = "2021"
publish = false

[dependencies]
itertools = "0.10"
names = { version = "0.14", default-features = false }
rand = "0.8"
serde_json = "1"
string-builder = "0.2"
url = "2"
actix-multipart = "0.6"
actix-web = { version = "4", default-features = false, features = ["macros"] }
chrono = { version = "0.4", features = ["serde"] }
clap = "2"
colored = "2"
config = { version = "0.11", default-features = false, features = ["yaml"] }
env_logger = "0.10"
futures = "0.3"
linemux = "*"
prettytable-rs = "0.10"
reqwest = { version = "0.11", default-features = false, features = ["blocking", "json"] }
rusqlite = { version = "0.29", features = ["bundled", "chrono"] }
serde = { version = "1", features = ["derive"] }
sudo = "0.6"
tokio = { version = "1", features = ["full"] }
which = "4"
yaml-rust = "0.4"
