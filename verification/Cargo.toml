[package]
name = "cooplan_definition_schema_validator"
version = "0.1.0"
edition = "2021"
publish = false

[dependencies]
serde_json = "1"
cooplan-definitions-lib = "*"
