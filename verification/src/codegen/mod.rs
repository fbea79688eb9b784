//! The code generator's decisions, over a model of the machine types it emits.

pub mod ir;
pub mod intrinsics;
pub mod mangle;
pub mod calls;
pub mod sums;
