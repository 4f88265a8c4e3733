//! A small Java virtual machine: class file loading, bytecode decoding and execution.
use vstd::prelude::*;

pub mod access_flags;
pub mod class;
pub mod classloader;
pub mod executor;
pub mod heap;
pub mod text;
pub mod version;
