[package]
name = "ssh_agent_mux"
version = "0.2.0"
edition = "2021"
publish = false

[dependencies]
clap-serde-derive = "=0.2.1"
color-eyre = "=0.6.5"
flexi_logger = "=0.31.10"
log = "=0.4.35"
service-manager = "=0.9.0"
shellexpand = { version = "=3.1.2", features = ["path"] }
ssh-agent-lib = "=0.5.2"
ssh-key = { version = "=0.6.7", features = ["std", "alloc"] }
tokio = { version = "=1.54.1", features = ["macros", "rt", "signal", "net", "sync"] }
toml = "=0.9.12"
