[package]
name = "pi_robot"
version = "0.1.0"
edition = "2021"
publish = false

[dependencies]
config = { version = "=0.15.27", default-features = false, features = ["yaml"] }
i2c-pca9685 = "=0.1.8"
i2cdev = "=0.3.2"
rppal = "=0.22.1"
serde = { version = "=1.0.229", features = ["derive"] }
serde_json = "=1.0.154"
ws = "=0.9.2"
