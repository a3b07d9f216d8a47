[package]
name = "manifmt"
version = "0.1.0"
edition = "2021"
rust-version = "1.95"
publish = false

[dependencies]
cargo = "=0.96.0"
# The next three are used by cargo alone. They are named to hold them at
# versions that build with the compiler named above.
cargo-credential-libsecret = "=0.5.6"
cargo-util = "=0.2.28"
kstring = "=2.0.0"
pathdiff = "=0.2.3"
semver = "=1.0.28"
toml = "=0.9.12"

[dev-dependencies]
cargo-platform = "=0.3.3"
regex = "=1.13.1"
