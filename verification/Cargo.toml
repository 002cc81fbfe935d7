[package]
name = "curta_18_solver"
version = "0.1.0"
edition = "2021"
publish = false

[dependencies]
hex = "=0.4.3"
tiny-keccak = { version = "=2.0.2", features = ["keccak"] }
rayon = "=1.12.0"
ethers-core = "=2.0.14"
clap = { version = "=4.6.7", default-features = false, features = ["std", "derive", "help", "usage", "error-context"] }
dotenv = "=0.15.0"
eyre = "=0.6.14"
tokio = { version = "=1.54.1", features = ["macros", "rt-multi-thread"] }
ethers-providers = { version = "=2.0.14", features = ["ws"] }
ethers-middleware = "=2.0.14"
ethers-signers = "=2.0.14"
mev-share-rpc-api = "=0.1.4"
jsonrpsee = { version = "=0.18.2", features = ["http-client"] }
tower = "=0.4.13"
futures-util = "=0.3.34"
tracing-subscriber = { version = "=0.3.23", default-features = false, features = ["std", "fmt", "env-filter"] }
