[package]
name = "storage_hooks"
version = "0.1.0"
edition = "2021"
publish = false

[dependencies]
gloo = "*"
log = "*"
web-sys = { version = "*", features = ["Storage", "StorageEvent", "Window", "Navigator", "Event"] }
yew = "*"
yew-hooks = "*"
