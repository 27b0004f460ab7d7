[package]
name = "vesper"
version = "0.1.0"
edition = "2021"
publish = false

[dependencies]
ignore = "0.4"
unicode-normalization = "0.1"
rusqlite = "*"
tokio = { version = "1", features = ["full"] }
anyhow = "1"
thiserror = "2"
tracing = "0.1"
tracing-subscriber = { version = "0.3", features = ["env-filter", "fmt"] }
tracing-appender = "0.2"
file-rotate = "0.7"
serde = { version = "1", features = ["derive"] }
serde_json = "1"
dirs = "*"
image = { version = "0.25", default-features = false, features = ["jpeg", "png", "gif", "webp", "tiff", "bmp"] }
notify-debouncer-mini = "*"
libc = "0.2"
glib = "*"
gtk4 = "*"
libadwaita = "*"

[dev-dependencies]
tempfile = "3"
