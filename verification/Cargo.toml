[package]
name = "dtar"
version = "0.1.0"
edition = "2021"
publish = false

[dependencies]
bzip2 = "=0.6.1"
clap = { version = "=4.6.7", features = ["derive"] }
colored = "=3.1.1"
dialoguer = "=0.12.0"
flate2 = "=1.1.10"
fs_extra = "=1.3.0"
indicatif = "=0.18.6"
tar = "=0.4.46"
xz2 = "=0.1.7"
zstd = "=0.14.3"
