[package]
name = "stecs"
version = "0.1.0"
edition = "2021"
publish = false

[dependencies]
thunderdome = "*"
hashbrown = "*"
fxhash = "*"
downcast-rs = "*"
serde = { version = "1", features = ["derive"] }
