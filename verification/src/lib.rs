//! The verified core of the Quilon compiler and runtime.

use vstd::prelude::*;

pub mod ast;
pub mod env;
pub mod deferral;
pub mod text;
pub mod driver;
pub mod codegen;
pub mod runtime;

verus! {
} // verus!
