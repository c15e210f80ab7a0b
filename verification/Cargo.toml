[package]
name = "helix_user_domain"
version = "0.1.0"
edition = "2021"
publish = false

[dependencies]
rust-crypto = "=0.2.36"
chrono = "=0.4.45"
uuid = "=1.27.0"
tokio = { version = "=1.53.2", features = ["macros", "rt-multi-thread"] }
tokio-postgres = { version = "=0.7.18", features = ["with-uuid-1", "with-chrono-0_4"] }
deadpool-postgres = "=0.14.2"
