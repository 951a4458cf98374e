[package]
name = "centripetal"
version = "0.1.0"
edition = "2021"
publish = false

[dependencies]
guillotiere = "=0.7.0"
ron = "=0.12.3"
serde = { version = "=1.0.229", features = ["derive"] }
sys-locale = "=0.3.2"
directories = "=6.0.0"
serde_json = "=1.0.154"
uuid = { version = "=1.29.0", features = ["serde"] }

[dev-dependencies]
nom = "=8.0.0"
nom-language = "=0.1.0"
bevy_color = "=0.16.2"
