[package]
name = "rsecrets"
version = "0.1.0"
edition = "2021"
publish = false

[dependencies]
serde_json = "=1.0.154"
json_dotpath = "=1.1.0"
kube = { version = "=3.1.0", features = ["runtime", "derive"] }
k8s-openapi = { version = "=0.27.1", features = ["latest"] }
tokio = { version = "=1.54.1", features = ["macros", "rt-multi-thread", "sync", "time"] }
futures = "=0.3.34"
serde = { version = "=1.0.229", features = ["derive"] }
schemars = "=1.2.3"
chrono = { version = "=0.4.45", features = ["serde"] }
aws-config = { version = "=1.13.0", features = ["behavior-version-latest"] }
aws-sdk-ssm = "=1.131.0"
aws-sdk-secretsmanager = "=1.123.0"
aws-sdk-cloudformation = "=1.134.0"
aws-sdk-appconfig = "=1.123.0"
reqwest = { version = "=0.13.5", features = ["json"] }
actix-web = "=4.18.1"
prometheus = "=0.14.0"
lazy_static = "=1.5.1"
log = "=0.4.34"
log4rs = "=1.4.0"
anyhow = "=1.0.104"
