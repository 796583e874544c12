[package]
name = "audio_core"
version = "0.1.0"
edition = "2021"
publish = false

[dependencies]
rustfft = "6"
hound = "3.5"
symphonia = { version = "0.5", features = ["mp3"] }
rodio = "0.21"
wasm-bindgen = "0.2"
js-sys = "0.3"
