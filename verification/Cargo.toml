[package]
name = "dgs"
version = "0.1.0"
edition = "2021"
publish = false

[dependencies]
anyhow = "=1.0.104"
bollard = "=0.10.1"
chrono = "=0.4.45"
clap = "=3.0.0-beta.2"
# clap's own derive crate, held to clap's version: clap asks for any 3.x of
# it, and the later ones do not fit this clap.
clap_derive = "=3.0.0-beta.2"
clap_generate = "=3.0.0-beta.2"
comfy-table = "=2.1.0"
dirs = "=3.0.2"
futures-util = "=0.3.34"
portpicker = "=0.1.1"
termion = "=1.5.6"
tokio = { version = "=1.54.1", features = ["macros", "rt-multi-thread"] }
