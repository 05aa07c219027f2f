[package]
name = "timesheettool"
version = "0.1.0"
edition = "2021"
publish = false

[dependencies]
anyhow = "*"
chrono = "*"
clap = { version = "*", features = ["derive"] }
diesel = { version = "*", features = ["sqlite", "chrono", "returning_clauses_for_sqlite_3_35"] }
dirs = "*"
dotenvy = "*"
itertools = "*"
log = "*"
serde = { version = "*", features = ["derive"] }
sqids = "*"
stderrlog = "*"
toml = "*"
tzfile = "*"
