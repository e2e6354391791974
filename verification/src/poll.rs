use vstd::prelude::*;

verus! {

/// Readiness of an asynchronous operation.
pub enum Poll<T> {
    Ready(T),
    Pending,
}

/// `std::task::Context`, handed through to the polled parts unchanged.
#[verifier::external_type_specification]
#[verifier::external_body]
pub struct ExContext<'a>(std::task::Context<'a>);

} // verus!
