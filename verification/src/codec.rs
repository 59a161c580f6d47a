//! The literal coder and the parts it is made of.

pub mod context;
pub mod literal;
pub mod mixer;
pub mod priors;
pub mod roundtrip;
