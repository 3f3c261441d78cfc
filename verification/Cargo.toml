[package]
name = "rp-spi-tft"
version = "0.1.0"
edition = "2021"
publish = false

[dependencies]
rp2040-hal = "0.8"
embedded-hal = "0.2"
fugit = "0.3"
cortex-m = "0.7"
