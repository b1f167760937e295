[package]
name = "hermit_sync"
version = "0.1.0"
edition = "2021"
publish = false

[dependencies]
lock_api = "=0.4.14"
one-shot-mutex = "=0.2.1"
x86_64 = { version = "=0.14.13", default-features = false, features = ["instructions"] }
generic_once_cell = "=0.1.2"
exclusive_cell = "=0.1.0"
