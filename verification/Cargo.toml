[package]
name = "frameloop"
version = "0.1.0"
edition = "2021"
publish = false

[dependencies]
log = "*"
dotenv = "*"
async-std = { version = "*", features = ["attributes"] }
async-h1 = "*"
http-types = "*"
wasm-bindgen = "*"
js-sys = "*"
web-sys = { version = "*", features = ["Window", "Document", "Element", "HtmlElement", "Node", "Text", "CharacterData", "EventTarget", "Event", "AddEventListenerOptions", "NodeList", "NamedNodeMap", "Attr"] }
console_error_panic_hook = "*"
