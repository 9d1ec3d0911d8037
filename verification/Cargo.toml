[package]
name = "rust_paddle_ocr"
version = "0.1.0"
edition = "2021"
publish = false

[dependencies]
image = { version = "=0.25.10", default-features = false }
imageproc = { version = "=0.25.1", default-features = false }
ndarray = "=0.16.1"
crossbeam-channel = "=0.5.17"
once_cell = "=1.21.4"
mnn = "=0.2.0"
