[package]
name = "cloud_trace_context"
version = "0.1.0"
edition = "2021"
publish = false

[dependencies]
opentelemetry = "*"
