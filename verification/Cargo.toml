[package]
name = "bolt_session"
version = "0.1.0"
edition = "2021"
publish = false

[dependencies]
neo4j = "*"
