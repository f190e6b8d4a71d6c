[package]
name = "git-issue"
version = "0.1.0"
edition = "2021"
publish = false

[dependencies]
clap = { version = "3.2", features = ["derive"] }
clap-git-options = "*"
clap-verbosity-flag = "1"
cli-log = "*"
getset = "0.1"
git-wrapper = "*"
log = "0.4"
posix-errors = "*"
terminal-link = "0.1"
thiserror = "1"
time = { version = "0.3", features = ["formatting", "parsing"] }
