[package]
name = "todo_mvu"
version = "0.1.0"
edition = "2021"
publish = false

[dependencies]
ulid = "*"
seed = "*"
