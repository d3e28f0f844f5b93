[package]
name = "geoip_resolver"
version = "0.1.0"
edition = "2021"
publish = false

[dependencies]
maxminddb = "0.24"
serde = { version = "1", features = ["derive"] }
actix-web = { version = "4", default-features = false, features = ["macros"] }
actix-files = "0.6"
