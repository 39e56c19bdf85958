[package]
name = "ledger_import"
version = "0.1.0"
edition = "2021"
publish = false

[dependencies]
sha256 = "=1.6.0"
calamine = { version = "=0.36.1", features = ["dates"] }
chrono = "=0.4.45"
toml = "*"
serde = { version = "=1.0.229", features = ["derive"] }
anyhow = "=1.0.104"
log = "=0.4.34"
colog = "=1.4.0"
dotenvy = "=0.15.7"
diesel = { version = "=2.3.14", features = ["sqlite", "returning_clauses_for_sqlite_3_35"] }
libsqlite3-sys = { version = "=0.38.2", features = ["bundled"] }
