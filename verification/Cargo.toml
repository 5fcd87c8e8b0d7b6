[package]
name = "tui_player"
version = "0.1.0"
edition = "2021"
publish = false

[dependencies]
biquad = "0.4"
crossterm = "0.28"
image = { version = "0.25", default-features = false, features = ["jpeg", "png"] }
libc = "0.2"
ratatui = "0.29"
rodio = "0.21"
rustfft = "6"
serde_json = "1"
symphonia = { version = "0.5", features = ["all"] }
tui-tree-widget = "0.23"
ureq = "3"
