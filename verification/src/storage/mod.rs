//! Object storage backends.

pub mod filesystem;
