[package]
name = "suisuiview"
version = "0.1.0"
edition = "2021"
publish = false

[dependencies]
blake3 = "=1.8.7"
bytemuck = { version = "=1.25.2", features = ["derive"] }
crossbeam-channel = "=0.5.17"
egui = { version = "=0.32.3", default-features = false }
fast_image_resize = "=5.5.0"
gif = "=0.14.2"
image = "=0.25.10"
image-webp = "=0.2.4"
jpeg-decoder = { version = "=0.3.2", features = ["platform_independent"] }
kamadak-exif = "=0.6.1"
lcms2 = "=6.2.0"
lru = "=0.19.0"
png = "=0.18.1"
pollster = "=1.0.1"
rfd = { version = "=0.15.4", default-features = false, features = ["xdg-portal", "async-std"] }
serde = { version = "=1.0.229", features = ["derive"] }
serde_json = "=1.0.154"
wgpu = "=25.0.2"
windows-sys = { version = "=0.59.0", features = ["Win32_Foundation", "Win32_Security", "Win32_Storage_FileSystem", "Win32_System_IO", "Win32_System_Pipes", "Win32_System_Threading", "Win32_UI_Accessibility", "Win32_UI_WindowsAndMessaging"] }
zune-core = "=0.5.3"
zune-jpeg = "=0.5.15"
zune-png = "=0.5.2"
zune-psd = "=0.5.1"
