[package]
name = "tessera"
version = "0.1.0"
edition = "2021"
publish = false

[dependencies]
alacritty_terminal = "=0.25.1"
eframe = { version = "=0.31.1", default-features = false, features = ["default_fonts", "glow", "x11"] }
egui = "=0.31.1"
fontdb = "=0.23.0"
objc2 = "0.5"
objc2-app-kit = { version = "0.2", features = ["NSApplication", "NSMenu", "NSMenuItem", "NSResponder", "NSView", "NSWindow"] }
objc2-foundation = { version = "0.2", features = ["NSArray", "NSThread"] }
open = "=5.4.5"
raw-window-handle = "0.6"
