[package]
name = "hw_checker"
version = "0.1.0"
edition = "2021"
publish = false

[dependencies]
anyhow = "*"
clap = { version = "*", features = ["derive"] }
colored = "*"
comfy-table = "*"
crossterm = "*"
pci-info = "*"
ratatui = "*"
raw-cpuid = "*"
rusb = "*"
serde = { version = "*", features = ["derive"] }
serde_json = "*"
serde_yaml = "*"
smbios-lib = "*"
sysinfo = "*"
