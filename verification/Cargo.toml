[package]
name = "skylark"
version = "0.1.0"
edition = "2021"
publish = false

[dependencies]
anyhow = "1"
base64 = "0.22"
chrono = { version = "0.4", default-features = false, features = ["clock", "std"] }
dirs-next = "2"
flate2 = "1"
futures-util = "0.3"
libc = "0.2"
log = "0.4"
reqwest = { version = "0.12", default-features = false, features = ["json", "stream", "rustls-tls"] }
serde = { version = "1", features = ["derive"] }
serde_json = "1"
serde_yaml = "0.9"
sys-locale = "0.3"
tar = "0.4"
tokio = { version = "1", features = ["full"] }
url = "2"
uuid = { version = "1", features = ["v4"] }
winapi = { version = "0.3", features = ["wininet", "processthreadsapi", "securitybaseapi", "winnt", "shellapi", "winuser", "consoleapi", "wincon", "handleapi", "psapi"] }
winreg = "0.52"
zip = { version = "2", default-features = false, features = ["deflate"] }
