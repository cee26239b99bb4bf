//! Host-side logic of a matrix-product self-test for a compute device.
//!
//! The test multiplies two integer-valued operands on the device and compares
//! what comes back with the product computed here. This crate holds
//! everything the host decides: the operands, the launch parameters, the
//! queue family the work is sent to, and the comparison itself.
pub mod device;
pub mod operand;
pub mod problem;
pub mod product;
pub mod ramp_product;
