[package]
name = "hot_reload"
version = "0.1.0"
edition = "2021"
publish = false

[dependencies]
chrono = { version = "=0.4.45", default-features = false, features = ["clock"] }
ignore = "=0.4.33"
serde = { version = "=1.0.229", features = ["derive"] }
serde_json = "=1.0.154"
interprocess = "=1.2.1"
notify = "=5.2.0"
execute = "=0.2.15"
dioxus-core = { version = "=0.3.3", features = ["serialize"] }
dioxus-rsx = "=0.0.3"
dioxus-html = { version = "=0.3.1", features = ["hot-reload-context"] }
