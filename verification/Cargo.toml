[package]
name = "host_instrument"
version = "0.1.0"
edition = "2021"
publish = false

[dependencies]
pelite = "=0.10.0"
retour = "=0.3.1"
thiserror = "=1.0.69"
tracing = "=0.1.44"
windows = { version = "0.58", features = ["Win32_Foundation", "Win32_System_Kernel", "Win32_System_LibraryLoader", "Win32_System_Threading"] }
