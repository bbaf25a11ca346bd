[package]
name = "leptos_workers"
version = "0.1.0"
edition = "2021"
publish = false

[dependencies]
convert_case = "*"
wasm-bindgen = "0.2"
js-sys = "0.3"
web-sys = { version = "0.3", features = ["Worker", "WorkerOptions", "WorkerType", "Blob", "BlobPropertyBag", "Url", "Window", "Document", "Element", "MessageEvent", "DedicatedWorkerGlobalScope", "WorkerGlobalScope", "EventTarget"] }
wasm-bindgen-futures = "0.4"
flume = "0.11"
futures = "0.3"
serde = { version = "1", features = ["derive"] }
serde-wasm-bindgen = "0.6"
thiserror = "*"
tracing = "0.1"
tracing-subscriber = "0.3"
tracing-subscriber-wasm = "0.1"
console_error_panic_hook = "0.1"
syn = { version = "2", features = ["full", "extra-traits"] }
quote = "1"
proc-macro2 = "1"
proc-macro-error = "1"
proc-macro-error2 = "2"
indoc = "2"
