[package]
name = "x509_certificate"
version = "0.1.0"
edition = "2021"
publish = false

[dependencies]
chrono = "=0.4.45"
pem = "=4.0.0"
ring = "=0.17.14"
p12 = "=0.6.3"
yasna = "=0.5.2"
