[package]
name = "cargo_gui"
version = "0.1.0"
edition = "2021"
publish = false

[dependencies]
iced = { version = "0.13", default-features = false, features = ["tiny-skia", "fira-sans", "tokio", "advanced"] }
iced_fonts = { version = "0.1", default-features = false, features = ["bootstrap"] }
tokio = { version = "1", features = ["fs", "io-util", "macros", "process", "rt", "sync"] }
futures = "0.3"
rfd = { version = "0.15", default-features = false, features = ["xdg-portal", "tokio"] }
directories = "5"
serde = { version = "1", features = ["derive"] }
toml = "0.8"
