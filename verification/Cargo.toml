[package]
name = "anqui"
version = "0.1.0"
edition = "2021"
publish = false

[dependencies]
rand = "0.8"
actix-web = "4"
actix-files = "0.6"
actix-identity = "0.4"
bcrypt = "*"
chrono = { version = "0.4", features = ["serde"] }
derive_more = "0.99"
diesel = { version = "1.4", features = ["postgres", "r2d2", "chrono"] }
diesel-derive-enum = { version = "1", features = ["postgres"] }
dotenv = "*"
env_logger = "*"
futures = "0.3"
futures-util = "0.3"
log = "0.4"
serde = { version = "1", features = ["derive"] }
serde_json = "1"
serde_qs = "*"
reqwasm = "*"
wasm-bindgen = "0.2"
wasm-bindgen-futures = "0.4"
wasm-logger = "*"
web-sys = { version = "0.3", features = ["Element", "HtmlInputElement", "HtmlTextAreaElement", "HtmlSelectElement"] }
yew = "0.19"
yew-router = "0.16"
