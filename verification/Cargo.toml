[package]
name = "hdf5_types"
version = "0.1.0"
edition = "2021"
publish = false
