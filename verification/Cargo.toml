[package]
name = "demiboard"
version = "0.1.0"
edition = "2021"
publish = false

[dependencies]
actix-identity = "=0.9.0"
actix-multipart = "=0.8.5"
actix-rt = "=2.15.0"
actix-session = { version = "=0.11.0", features = ["cookie-session"] }
actix-web = { version = "=4.18.1", default-features = false, features = ["macros"] }
colored = "=3.1.1"
dotenv = "=0.15.0"
envconfig = "=0.11.1"
envconfig_derive = "=0.11.1"
futures = "=0.3.34"
lazy_static = "=1.5.1"
num_cpus = "=1.17.0"
rand = "=0.10.3"
sanitize-filename = "=0.6.0"
serde = { version = "=1.0.229", features = ["derive"] }
serde_json = "=1.0.154"
sqlx = { version = "=0.9.0", default-features = false, features = ["postgres", "runtime-tokio", "macros", "time"] }
time = { version = "=0.3.55", features = ["serde"] }
tokio = { version = "=1.54.1", features = ["sync", "time", "rt"] }
