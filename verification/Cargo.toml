[package]
name = "snow_duck"
version = "0.1.0"
edition = "2021"
publish = false

[dependencies]
chrono = "=0.4.45"
duckdb = "=1.10506.0"
