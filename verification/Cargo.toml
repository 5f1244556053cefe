[package]
name = "pika_pulse"
version = "0.1.0"
edition = "2021"
publish = false

[dependencies]
ringbuffer = "=0.15.0"
spectrum-analyzer = "=1.5.0"
cpal = "0.15.3"
hound = "3.5.1"
plotters = "0.3.7"
clap = { version = "4.5", features = ["derive"] }
chrono = "0.4"
color-eyre = "0.6"
anyhow = "1"
