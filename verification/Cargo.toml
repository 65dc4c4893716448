[package]
name = "mygrid_scheduler"
version = "0.1.0"
edition = "2021"
publish = false

[dependencies]
anyhow = "=1.0.104"
chrono = { version = "=0.4.45", features = ["serde"] }
glob = "=0.3.4"
lettre = "=0.11.23"
log = { version = "=0.4.34", features = ["serde", "std"] }
md-5 = "=0.10.6"
rayon = "=1.12.0"
serde = { version = "=1.0.229", features = ["derive"] }
serde_json = "=1.0.154"
spa_sra = { version = "=0.3.3", features = ["chrono_0_4"] }
thiserror = "=2.0.21"
toml = "=1.1.8"
ureq = "=3.5.0"
