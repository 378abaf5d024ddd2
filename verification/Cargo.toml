[package]
name = "ipc"
version = "0.1.0"
edition = "2021"
publish = false

[dependencies]
bytes = "=0.4.12"
futures = "=0.1.31"
libc = "0.2"
rmp-serde = "1.3"
serde = { version = "1", features = ["derive"] }
serde_derive = "1"
tokio-io = "=0.1.13"
winapi = { version = "0.3", features = ["fileapi", "handleapi", "ioapiset", "minwinbase", "namedpipeapi", "ntdef", "winnt", "winsock2", "ws2def"] }
