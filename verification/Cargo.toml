[package]
name = "workflow-ux"
version = "0.1.0"
edition = "2021"
publish = false

[dependencies]
regex = "=1.13.1"
md5 = "=0.7.0"
sha2 = "=0.10.9"
pulldown-cmark = { version = "=0.9.6", default-features = false }
convert_case = "=0.6.0"
syn = { version = "=1.0.109", features = ["full"] }
quote = "=1.0.47"
proc-macro2 = "=1.0.107"
wasm-bindgen = "=0.2.130"
js-sys = "=0.3.107"
web-sys = { version = "=0.3.107", features = ["Window", "Document", "Element", "HtmlElement", "HtmlInputElement", "HtmlImageElement", "HtmlCollection", "DomTokenList", "Node", "NodeList", "EventTarget", "Event", "MouseEvent", "CustomEvent", "SvgElement", "Location"] }
borsh = { version = "=0.10.4", features = ["std"] }
thiserror = "=1.0.69"
