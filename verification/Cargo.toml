[package]
name = "artifact_resolver"
version = "0.1.0"
edition = "2021"
publish = false

[dependencies]
serde_json = "1"
target-lexicon = "*"
xshell = "0.2"
anyhow = "1"
fs-err = "*"
log = "0.4"
