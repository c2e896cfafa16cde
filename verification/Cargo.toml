[package]
name = "tls_mon"
version = "0.1.0"
edition = "2021"
publish = false

[dependencies]
bytes = "1"
futures = "0.3"
h2 = { version = "0.3", features = ["unstable"] }
hexdump = "*"
redbpf = { version = "2", features = ["load"] }
redbpf-probes = "2"
rlimit = "*"
sysinfo = "0.29"
tokio = { version = "1", features = ["rt", "macros", "sync"] }
tracing = "0.1"
tracing-subscriber = "0.3"
uname = "*"
