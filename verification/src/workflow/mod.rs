//! The decisions of a transfer or resume run: what each batch needs next and how the
//! recorded state changes. Running the steps themselves (copying, verifying, persisting) is
//! left to the caller.

pub mod operator_review;
pub mod setup;
pub mod batch_flow;
pub mod registry_ops;
