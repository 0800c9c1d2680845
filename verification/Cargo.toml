[package]
name = "sdmmc"
version = "0.1.0"
edition = "2021"
publish = false

[dependencies]
log = "0.4"
volatile = "=0.6.1"
axhal = "=0.3.0-preview.3"
axtask = { version = "=0.3.0-preview.3", features = ["multitask"] }
axdma = "=0.3.0-preview.3"
axdriver = { version = "=0.3.0-preview.3", features = ["block"] }
axdriver_base = "=0.1.4-preview.3"
lwext4_rust = "=0.2.0"
