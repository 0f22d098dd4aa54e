//! Shaped arrays with element-wise arithmetic, and gradient-descent optimizers.
//!
//! Every type is generic over its element type. The arithmetic of the elements
//! comes from the operator traits of `core::ops`, so the contracts describe each
//! computed element through the operator that produced it.

pub mod optim;
pub mod shape;
pub mod tensor;
