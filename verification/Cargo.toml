[package]
name = "ntp_clock"
version = "0.1.0"
edition = "2021"
publish = false

[dependencies]
time = "0.3"
ntp = "0.5"
ctrlc = "3"
