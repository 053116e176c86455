[package]
name = "serializable_symbols"
version = "0.1.0"
edition = "2021"
publish = false

[dependencies]
dwarfdump = "=0.1.0"
getopts = "=0.2.24"
memmap = "=0.5.2"
object = "=0.3.0"
