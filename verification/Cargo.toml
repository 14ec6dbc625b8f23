[package]
name = "todo_app"
version = "0.1.0"
edition = "2021"
publish = false

[dependencies]
chrono = { version = "=0.4.45", features = ["serde"] }
serde = { version = "=1.0.229", features = ["derive"] }
serde_json = "=1.0.154"
yew = { version = "=0.23.0", features = ["csr"] }
yew-router = "=0.20.0"
yewdux = "=0.13.0"
gloo = "=0.11.0"
gloo-net = "=0.5.0"
web-sys = { version = "=0.3.107", features = ["HtmlInputElement", "HtmlButtonElement", "HtmlElement", "DomTokenList", "Window", "Location"] }
wasm-bindgen = "=0.2.130"
pingora = { version = "=0.4.0", features = ["proxy"] }
resource-proxy-pingora = "=0.1.2"
http = "=1.5.0"
async-trait = "=0.1.92"
log = "=0.4.35"
anyhow = "=1.0.104"
dotenvy = "=0.15.7"
pretty_env_logger = "=0.5.0"
minreq = "2"
