[package]
name = "timehist"
version = "0.1.0"
edition = "2021"
publish = false

[dependencies]
yansi = "0.5"
