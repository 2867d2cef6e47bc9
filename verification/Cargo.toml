[package]
name = "bitwig_launcher"
version = "0.1.0"
edition = "2021"
publish = false

[dependencies]
serde = { version = "=1.0.229", features = ["derive"] }
serde_yaml = "=0.8.26"
winreg = "=0.56.0"
native-windows-gui = "=0.2.1"
