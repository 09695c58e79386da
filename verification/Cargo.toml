[package]
name = "flake_edit"
version = "0.1.0"
edition = "2021"
publish = false

[dependencies]
rnix = "=0.10.2"
rowan = "=0.12.6"
nixpkgs-fmt = "=1.2.0"
anyhow = "=1.0.104"
skim = "=4.4.0"
smol_str = "=0.1.24"
parse-display = "=0.5.5"
