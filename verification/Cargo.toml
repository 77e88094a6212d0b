[package]
name = "brooks_cli"
version = "0.1.0"
edition = "2021"
publish = false

[dependencies]
actix-cors = "0.7"
actix-utils = "3"
actix-web = "4"
ansi_term = "0.12"
awc = "3"
chrono = "0.4"
clap = { version = "4", features = ["derive"] }
clio = { version = "0.3", features = ["clap-parse"] }
flexi_logger = "*"
futures-util = "0.3"
http = "*"
log = "0.4"
pwd-grp = "*"
serde = { version = "1", features = ["derive"] }
serde_json = "1"
tokio = { version = "1", features = ["full"] }
