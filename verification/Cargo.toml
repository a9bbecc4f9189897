[package]
name = "wasm96_core"
version = "0.1.0"
edition = "2021"
publish = false

[dependencies]
fontdue = "=0.9.5"
gif = "=0.13.3"
hound = "=3.5.1"
libretro-backend = "=0.2.1"
png = "=0.17.16"
qoaudio = "=0.7.0"
resvg = "=0.49.0"
wasmtime = { version = "=36.0.19", default-features = false, features = ["cranelift", "gc", "runtime", "std", "threads"] }
wat = "=1.262.0"
xmrs = "=0.15.2"
xmrsplayer = "=0.15.0"
