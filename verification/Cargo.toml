[package]
name = "blaseball_vcr"
version = "0.1.0"
edition = "2021"
publish = false

[dependencies]
integer-encoding = "=3.0.4"
zstd = { version = "=0.14.3", features = ["experimental"] }
bsdiff = "=0.2.1"
fst = "=0.4.7"
uuid = "=1.29.1"
serde = { version = "=1.0.229", features = ["derive"] }
serde_json = "=1.0.154"
rmp-serde = "=1.3.1"
chrono = "=0.4.45"
memmap2 = "=0.9.12"
thiserror = "=2.0.21"
json-patch = "=4.2.0"
lru = "=0.19.0"
rayon = "=1.12.0"
sha2 = "=0.11.1"
crossbeam = "=0.8.5"
num_cpus = "=1.17.0"
rkyv = "=0.7.46"
type-map = "=0.5.1"
modular-bitfield = "=0.13.1"
enum-map = "=3.1.0"
compiled-uuid = "=0.1.2"
moka = { version = "=0.12.16", features = ["sync"] }
