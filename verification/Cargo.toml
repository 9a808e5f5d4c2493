[package]
name = "hashify"
version = "0.1.0"
edition = "2021"
publish = false

[dependencies]
arrayref = "=0.3.9"
atty = "=0.2.14"
base-x = "=0.2.11"
base64-url = "=1.4.13"
blake2 = { version = "=0.10.6", features = ["reset"] }
blake3 = { version = "=1.8.7", default-features = false, features = ["pure"] }
bs58 = "=0.5.1"
clap = "=2.34.0"
colored = "=2.2.0"
digest = "=0.10.7"
hex = "=0.4.3"
md-5 = "=0.10.6"
num-bigint = "=0.4.8"
num-traits = "=0.2.19"
rand = "=0.8.8"
rand_chacha = "=0.3.1"
ripemd = "=0.1.3"
rpassword = "=5.0.1"
sha1 = "=0.10.7"
sha2 = "=0.10.9"
sha3 = "=0.10.9"
stringreader = "=0.1.1"
whirlpool = "=0.10.4"
