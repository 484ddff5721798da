[package]
name = "aegis-core"
version = "0.2.1"
edition = "2021"
publish = false

[dependencies]
aes = "*"
aes-gcm = "*"
cbc = "*"
heapless = "*"
hmac = "*"
minicbor = { version = "*", features = ["alloc", "derive"] }
p256 = { version = "*", features = ["ecdh", "ecdsa"] }
rusb = "*"
sha2 = "*"
embassy-rp = { version = "*", features = ["rp235xa"] }
embassy-sync = "*"
embassy-time = "*"
embassy-usb = "*"
critical-section = "*"
defmt = "*"
static_cell = "*"
