//! Fixed-point arithmetic shared by the probability models.

pub mod numeric;
