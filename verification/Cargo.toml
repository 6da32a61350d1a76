[package]
name = "noisegate"
version = "0.1.0"
edition = "2021"
publish = false

[dependencies]
ringbuf = "=0.4.8"
dirs = "=5.0.1"
anyhow = "=1.0.104"
serde = { version = "=1.0.229", features = ["derive"] }
toml = "=0.8.2"
tracing = "=0.1.44"
tracing-subscriber = { version = "=0.3.23", features = ["env-filter"] }
nnnoiseless = { version = "=0.5.2", default-features = false }
ndarray = "=0.15.6"
deep_filter = { version = "=0.2.5", default-features = false }
ort = { version = "=2.0.0-rc.10", default-features = false, features = ["load-dynamic", "std"] }
winit = { version = "=0.30.13", default-features = false, features = ["x11", "rwh_06"] }
tray-icon = { version = "=0.19.3", default-features = false }
windows = { version = "=0.58.0", features = ["Win32_Foundation", "Win32_Media_Audio", "Win32_Media_KernelStreaming", "Win32_Media_Multimedia", "Win32_System_Com", "Win32_System_Com_StructuredStorage", "Win32_System_Registry", "Win32_System_Threading", "Win32_System_Variant", "Win32_Devices_FunctionDiscovery", "Win32_UI_Shell_PropertiesSystem", "Win32_UI_WindowsAndMessaging", "Win32_Security"] }

[lints.rust]
unexpected_cfgs = { level = "warn", check-cfg = ["cfg(dfnet3)"] }
