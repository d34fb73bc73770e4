[package]
name = "akarin"
version = "0.1.0"
edition = "2021"
publish = false

[dependencies]
acpi = "=6.0.1"
hashbrown = "=0.17.1"
log = "=0.4.35"
unifont = "=0.1.0"
