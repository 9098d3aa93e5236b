[package]
name = "todo_ci"
version = "0.1.0"
edition = "2021"
publish = false

[dependencies]
bunt = "=0.2.9"
chrono = "=0.4.45"
clap = { version = "=4.6.7", features = ["derive"] }
eyre = "=0.6.14"
globset = "=0.4.20"
ignore = "=0.4.33"
termcolor = "=1.4.1"
time = { version = "=0.3.55", features = ["parsing"] }

[dev-dependencies]
grep = "*"
