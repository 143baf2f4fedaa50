[package]
name = "faster"
version = "0.2.4"
edition = "2021"
publish = false

[dependencies]
regex = "=1.13.1"
kseq = "=0.5.3"
bio = "=4.2.2"
flate2 = "=1.1.10"
clap = "=3.2.25"
indicatif = "=0.17.11"
