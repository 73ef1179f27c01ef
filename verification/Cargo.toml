[package]
name = "novos"
version = "0.1.0"
edition = "2021"
publish = false

[dependencies]
anyhow = "*"
axum = { version = "*", features = ["ws"] }
chrono = "*"
clap = { version = "*", features = ["derive"] }
grass = "*"
image = { version = "*", default-features = false, features = ["png", "jpeg"] }
minify-html = "*"
notify = "*"
pulldown-cmark = "*"
rayon = "*"
rss = "*"
serde = { version = "*", features = ["derive"] }
serde_json = "*"
syntect = { version = "*", default-features = false, features = ["default-fancy"] }
tera = "*"
tokio = { version = "*", features = ["macros", "rt-multi-thread", "sync", "time", "net", "fs"] }
toml = "*"
tower-http = { version = "*", features = ["fs"] }
walkdir = "*"
webp = "*"
