[package]
name = "krb_client"
version = "0.1.0"
edition = "2021"
publish = false

[dependencies]
kerberos_asn1 = "*"
kerberos_constants = "*"
kerberos_crypto = "*"
chrono = "*"
rand = "*"
