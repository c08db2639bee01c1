[package]
name = "lan-cat"
version = "0.1.0"
edition = "2021"
publish = false

[dependencies]
anyhow = "1"
blake3 = "=1.8.7"
chacha20poly1305 = "=0.10.1"
clap = { version = "4", default-features = false, features = ["std", "derive", "help", "usage", "error-context"] }
directories = "*"
eframe = { version = "0.31", default-features = false, features = ["default_fonts", "glow", "wayland"] }
hex = "=0.4.3"
libc = "0.2"
mdns-sd = "=0.21.7"
nix = { version = "0.30", features = ["socket", "user"] }
rand = "=0.10.3"
serde = { version = "1", features = ["derive"] }
serde_cbor = "0.11"
serde_json = "1"
smithay-client-toolkit = { version = "0.19", default-features = false }
snow = { version = "=0.10.0", default-features = false, features = ["use-chacha20poly1305", "use-blake2", "use-curve25519", "use-getrandom"] }
tempfile = "3"
tokio = { version = "1", features = ["fs", "io-util", "macros", "net", "process", "rt", "rt-multi-thread", "signal", "sync", "time"] }
tracing = "0.1"
tracing-subscriber = { version = "0.3", default-features = false, features = ["env-filter", "fmt"] }
uuid = { version = "=1.29.0", features = ["v4"] }
wayland-client = "0.31"
wayland-protocols = { version = "0.32", features = ["client", "unstable"] }
wayland-protocols-misc = { version = "0.3", features = ["client"] }
wayland-protocols-wlr = { version = "0.3", features = ["client"] }
wl-clipboard-rs = "0.9"
x25519-dalek = "=2.0.1"
