[package]
name = "arceboot"
version = "0.1.0"
edition = "2021"
publish = false

[dependencies]
sbi-rt = "*"
log = "0.4"
spin = "0.9"
uart16550 = "*"
sifive-test-device = "*"
riscv = "0.11"
uefi-raw = "*"
cfg-if = "1"
object = { version = "0.36", default-features = false, features = ["read"] }
serde = { version = "1", default-features = false, features = ["derive"] }
serde-device-tree = "*"
