[package]
name = "debugger_core"
version = "0.1.0"
edition = "2021"
publish = false

[dependencies]
anyhow = "1"
bytes = "1"
crossterm = "0.25"
fallible-iterator = "0.2"
gimli = "0.27"
log = "0.4"
nix = "0.26"
object = "0.30"
rustc-demangle = "0.1"
rustyline = "11"
rustyline-derive = "0.8"
tui = "0.19"
