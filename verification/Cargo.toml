[package]
name = "render"
version = "0.1.0"
edition = "2021"
publish = false

[dependencies]
anyhow = "=1.0.104"
num_cpus = "=1.17.0"
generational-arena = "=0.2.9"
gfx-hal = "=0.6.0"
thiserror = "=1.0.69"
parking_lot = "=0.11.2"
async-executor = "=1.14.1"
async-channel = "=1.9.0"
futures-lite = "=1.13.0"
bytemuck = "=1.25.2"
log = "=0.4.35"
uuid = { version = "=0.8.2", features = ["v4"] }
raw-window-handle = "=0.3.4"
