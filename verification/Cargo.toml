[package]
name = "async_std"
version = "1.2.0"
edition = "2021"
publish = false

[dependencies]
async-task = "1"
crossbeam-deque = "0.7"
crossbeam-utils = "0.7"
kv-log-macro = "1"
mio = "0.6"
num_cpus = "1"
once_cell = "1"
slab = "0.4"
