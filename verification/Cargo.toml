[package]
name = "iw_player"
version = "0.1.0"
edition = "2021"
publish = false

[dependencies]
eframe = { version = "=0.31.1", default-features = false, features = ["default_fonts", "glow", "x11"] }
egui = "=0.31.1"
egui-phosphor = "=0.9.0"
js-sys = "=0.3.106"
log = "=0.4.34"
poll-promise = { version = "=0.3.0", features = ["web"] }
rfd = "=0.15.4"
wasm-bindgen = "=0.2.129"
wasm-bindgen-futures = "=0.4.79"
web-sys = { version = "=0.3.106", features = ["Document", "DomStringList", "Element", "Event", "EventTarget", "HtmlCanvasElement", "HtmlElement", "IdbDatabase", "IdbFactory", "IdbObjectStore", "IdbOpenDbRequest", "IdbRequest", "IdbTransaction", "IdbTransactionMode", "KeyboardEvent", "KeyboardEventInit", "Window"] }
