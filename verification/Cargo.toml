[package]
name = "rouille"
version = "0.1.0"
edition = "2021"
publish = false

[dependencies]
url = "=1.7.2"
base64 = "=0.13.1"
rustc-serialize = "=0.3.25"
rand = "=0.4.6"
sha1 = "=0.6.1"
deflate = { version = "=1.0.0", features = ["gzip"] }
brotli2 = "=0.3.2"
httparse = "=1.10.1"
atoi = "=2.0.0"
multipart = { version = "=0.18.0", default-features = false, features = ["server"] }
mio = "=0.6.23"
slab = "=0.4.12"
num_cpus = "=1.17.0"
crossbeam = "=0.2.12"
chrono = "=0.4.45"
term = "=0.7.0"
