[package]
name = "parquet_ingest"
version = "0.1.0"
edition = "2021"
publish = false

[dependencies]
aws-config = "=1.12.0"
aws-sdk-s3 = "=1.152.0"
aws-smithy-runtime = "=1.16.0"
aws-types = "=1.6.0"
csv = "1"
futures-util = "=0.3.34"
indicatif = "=0.17.11"
log = "=0.4.34"
parquet = { version = "=60.0.0", default-features = false, features = ["snap"] }
simplelog = "=0.12.2"
tokio = { version = "=1.54.1", features = ["rt-multi-thread"] }
