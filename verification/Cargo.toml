[package]
name = "hd2m_cv"
version = "0.1.0"
edition = "2021"
publish = false

[dependencies]
image = "*"
