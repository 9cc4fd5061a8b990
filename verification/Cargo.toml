[package]
name = "st7735"
version = "0.1.0"
edition = "2021"
publish = false

[dependencies]
num = "*"
embedded-hal = "0.2"
spidev = "*"
sysfs_gpio = "*"
