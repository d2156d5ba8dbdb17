[package]
name = "club_sem_rust"
version = "0.1.0"
edition = "2021"
publish = false

[dependencies]
ink = { version = "4.3", default-features = true }
