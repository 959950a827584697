[package]
name = "wptui"
version = "0.1.0"
edition = "2021"
publish = false

[dependencies]
unicode-segmentation = "=1.13.3"
log = "=0.4.35"
ratatui = "=0.30.2"
ratatui-textarea = "=0.9.4"
tui-logger = "=0.18.3"
