[package]
name = "glifparser"
version = "0.1.0"
edition = "2021"
publish = false

[dependencies]
xmltree = "*"
kurbo = "*"
integer_or_float = "*"
serde = { version = "*", features = ["derive"] }
