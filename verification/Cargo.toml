[package]
name = "zefir-os-kernel"
version = "0.1.0"
edition = "2021"
publish = false

[dependencies]
bootloader_api = "=0.11.17"
lazy_static = { version = "=1.5.1", features = ["spin_no_std"] }
noto-sans-mono-bitmap = { version = "=0.2.0", default-features = false, features = ["regular", "size_16", "unicode-basic-latin", "unicode-specials"] }
spin = "=0.9.9"
volatile = "=0.4.6"
x86_64 = { version = "=0.14.13", default-features = false, features = ["instructions"] }
