[package]
name = "preemptive"
version = "0.1.0"
edition = "2021"
publish = false

[dependencies]
cortex-m = "0.5"
stm32f103xx = "0.11"
