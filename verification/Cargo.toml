[package]
name = "ascii_art"
version = "0.1.0"
edition = "2021"
publish = false

[dependencies]
image = { version = "*", default-features = false, features = ["png", "jpeg"] }
base64 = "*"
console_error_panic_hook = "*"
js-sys = "*"
wasm-bindgen = "*"
web-sys = { version = "*", features = ["Window", "Document", "Element", "HtmlElement", "HtmlPreElement", "HtmlInputElement", "HtmlImageElement", "FileReader", "File", "FileList", "Blob", "Event", "EventTarget", "XmlHttpRequest", "XmlHttpRequestResponseType", "Location", "UrlSearchParams", "DomTokenList", "Node", "NodeList"] }
