[package]
name = "apollo_graphql"
version = "0.1.0"
edition = "2021"
publish = false

[dependencies]
rowan = "0.15"
indexmap = "2"
arbitrary = "1"
