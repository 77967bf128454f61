[package]
name = "pullkit"
version = "0.1.0"
edition = "2021"
publish = false

[dependencies]
anyhow = "1"
clap = { version = "4", features = ["derive"] }
crossterm = "0.29"
libc = "0.2"
objc2 = "0.6"
objc2-app-kit = { version = "0.3", default-features = false, features = ["std", "NSApplication", "NSImage", "NSResponder"] }
objc2-foundation = { version = "0.3", default-features = false, features = ["std", "NSData", "NSThread"] }
serde = { version = "1", features = ["derive"] }
serde_yaml = "0.9"
signal-hook = "0.3"
unicode-segmentation = "1"
unicode-width = "0.2"
