[package]
name = "ping_monitor"
version = "0.1.0"
edition = "2021"
publish = false

[dependencies]
arraydeque = "*"
sysinfo = "*"
netstat2 = "*"
winping = "*"
crossterm = "*"
