[package]
name = "tank_core"
version = "0.1.0"
edition = "2021"
publish = false

[dependencies]
anyhow = "*"
atoi = "*"
dyn-clone = "*"
fast-float = "*"
futures = "*"
hex = "*"
itoa = "*"
log = "*"
proc-macro2 = "*"
quote = "*"
regex = "*"
rust_decimal = "*"
ryu = "*"
syn = { version = "2", features = ["full"] }
time = { version = "0.3", features = ["parsing", "macros", "formatting"] }
uuid = "1"
