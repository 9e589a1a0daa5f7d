[package]
name = "pencil_fft"
version = "0.1.0"
edition = "2021"
publish = false

[dependencies]
bytemuck = { version = "1", features = ["extern_crate_alloc"] }
mpi = "0.8"
thiserror = "2"
