[package]
name = "rustproc"
version = "0.2.0"
edition = "2021"
publish = false

[dependencies]
crossterm = "0.27"
sysinfo = "0.30"
