[package]
name = "victoria_weather"
version = "0.1.0"
edition = "2021"
publish = false

[dependencies]
hyper = "0.10"
clap = "2"
env_logger = "0.4"
log = "0.3"
