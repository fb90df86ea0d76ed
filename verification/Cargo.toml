[package]
name = "kernel_core"
version = "0.1.0"
edition = "2021"
publish = false

[dependencies]
crossbeam-queue = "=0.2.3"
volatile = "=0.2.7"
pc-keyboard = "=0.5.1"
conquer-once = "=0.2.1"
lazy_static = "=1.5.1"
spin = "=0.5.2"
x86_64 = "0.15"
