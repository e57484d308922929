[package]
name = "css_transition"
version = "0.1.0"
edition = "2021"
publish = false

[dependencies]
leptos = "*"
send_wrapper = "*"
web-sys = { version = "*", features = ["CssStyleDeclaration", "DomTokenList", "Element", "HtmlElement", "Window", "Event", "EventTarget"] }
