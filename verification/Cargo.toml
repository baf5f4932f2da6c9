[package]
name = "magma_api"
version = "0.1.0"
edition = "2021"
publish = false

[dependencies]
magma_ecs = "=0.4.1"
magma_math = "=0.1.0-alpha"
thiserror = "=2.0.21"
winit = "=0.30.13"
raw-window-handle = "=0.6.2"
feufeu = "=0.1.0-beta.1"
