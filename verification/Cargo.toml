[package]
name = "piano_core"
version = "0.1.0"
edition = "2021"
publish = false

[dependencies]
serde = { version = "=1.0.229", features = ["derive"] }
serde_json = "=1.0.154"
bincode = "=1.3.3"
rustfft = "=6.4.1"
yin = "=0.2.0"
ndarray = "=0.17.2"
sklears-core = "=0.2.0"
sklears-linear = "=0.2.0"
crossbeam = "=0.8.5"
portaudio = "=0.7.1"
ctrlc = "=3.5.2"
cpal = "*"
