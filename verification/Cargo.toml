[package]
name = "winplayer"
version = "0.1.0"
edition = "2021"
publish = false

[dependencies]
serde = { version = "1", features = ["derive"] }
toml = "0.8"
directories = "5"
parking_lot = "0.12"
crossbeam-channel = "0.5"
log = "0.4"
env_logger = { version = "0.11", default-features = false }
walkdir = "2"
lofty = "0.21"
symphonia = { version = "0.5", default-features = false, features = ["mp3", "flac", "wav", "pcm", "vorbis", "ogg"] }
rubato = "0.15"
ringbuf = "0.4"
biquad = "0.5"
