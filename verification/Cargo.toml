[package]
name = "typstdriver"
version = "0.1.0"
edition = "2021"
publish = false

[dependencies]
anyhow = "=1.0.104"
codex = "=0.2.0"
cxx = "=1.0.205"
once_cell = "=1.21.4"
pulldown-cmark = { version = "=0.13.5", default-features = false, features = ["html"] }
serde = { version = "=1.0.229", features = ["derive"] }
serde_json = "=1.0.154"
time = { version = "=0.3.55", features = ["parsing"] }
typst = "=0.14.2"
typst-ide = "=0.14.2"
typst-kit = { version = "=0.14.2", default-features = false, features = ["fonts", "embed-fonts"] }
typst-pdf = "=0.14.2"
typst-render = "=0.14.2"
unicode-math-class = "=0.1.0"
unicode_names2 = "=4.0.0"
unicode-segmentation = "=1.13.3"
xattr = "=1.6.1"
