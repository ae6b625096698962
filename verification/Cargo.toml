[package]
name = "kdseg"
version = "0.1.0"
edition = "2021"
publish = false

[dependencies]
clap = "*"
env_logger = "*"
gfx_core = "*"
kdvtree = "*"
log = "*"
piston_window = "*"
