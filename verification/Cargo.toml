[package]
name = "crossdesk"
version = "0.1.0"
edition = "2021"
publish = false

[dependencies]
arboard = "=3.7.0"
blake3 = "=1.8.7"
chacha20poly1305 = "=0.11.0"
core-graphics = { version = "=0.25.0", default-features = false, features = ["highsierra"] }
display-info = "=0.5.10"
enigo = "=0.6.1"
getrandom = "=0.4.3"
if-addrs = "=0.15.0"
parking_lot = "=0.12.5"
postcard = { version = "=1.1.3", features = ["use-std"] }
serde = { version = "=1.0.229", features = ["derive"] }
serde_json = "=1.0.154"
thiserror = "=2.0.21"
tokio = { version = "=1.54.1", features = ["full"] }
windows = { version = "=0.62.2", features = ["Win32_Foundation", "Win32_Graphics_Gdi", "Win32_System_LibraryLoader", "Win32_System_Threading", "Win32_UI_Input", "Win32_UI_Input_KeyboardAndMouse", "Win32_UI_WindowsAndMessaging"] }
x25519-dalek = { version = "=3.0.0", features = ["getrandom"] }
