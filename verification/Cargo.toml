[package]
name = "uflowmeter"
version = "0.1.0"
edition = "2021"
publish = false

[dependencies]
embassy-time = "0.5.1"
embassy-futures = "0.1.2"
embassy-executor = "0.10.0"
critical-section = "1.2.0"
panic-msp430 = "0.4.0"
