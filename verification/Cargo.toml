[package]
name = "monica"
version = "0.1.0"
edition = "2021"
publish = false

[dependencies]
anyhow = "=1.0.104"
async-channel = "=2.5.0"
device_query = "=4.0.1"
display-config = "=0.1.1"
dpi = "=0.1.2"
objc2 = "=0.6.5"
objc2-app-kit = { version = "=0.3.2", features = ["NSColor", "NSResponder", "NSView", "NSWindow"] }
raw-window-handle = "=0.6.2"
rust-embed = { version = "=8.13.0", features = ["include-exclude"] }
windows = { version = "=0.62.2", features = ["Win32_Foundation", "Win32_UI_WindowsAndMessaging"] }
