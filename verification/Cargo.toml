[package]
name = "dsv_writer"
version = "0.1.0"
edition = "2021"
publish = false

[dependencies]
anyhow = "1"
futures = "0.3"
rand = "0.9"
rand_distr = "0.5"
rand_pcg = "0.9"
thiserror = "2"
