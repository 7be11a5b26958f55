[package]
name = "disruptor"
version = "0.1.0"
edition = "2021"
publish = false

[dependencies]
const_power_of_two = "*"
crossbeam-utils = "*"
getopts = "*"
log = "*"
quanta = "*"
