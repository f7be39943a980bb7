[package]
name = "simurust"
version = "0.1.0"
edition = "2021"

[dependencies]
num = "0.4"
