[package]
name = "workflow"
version = "0.1.0"
edition = "2021"
publish = false

[dependencies]
chrono = "0.4"
comfy-table = "7"
crossterm = "*"
ctrlc = "3"
diesel = { version = "2", features = ["postgres", "chrono"] }
dotenvy = "0.15"
regex = "1"
signal-hook = "0.3"
terminal-fonts = "*"
termion = "*"
tui = "0.19"
whoami = "1"
