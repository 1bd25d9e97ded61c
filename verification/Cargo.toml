[package]
name = "usbmount"
version = "1.0.0"
edition = "2021"
publish = false

[dependencies]
byte-unit = "=4.0.19"
clap = { version = "=3.2.25", features = ["derive"] }
console = "=0.15.11"
ctrlc = "=3.5.2"
dialoguer = "=0.10.4"
regex = "=1.13.1"
sudo = "=0.6.0"
sys-mount = { version = "=1.5.1", default-features = false }
udev = "=0.7.0"
whoami = "=1.6.1"
