//! How a program stops.

use vstd::prelude::*;

use crate::error::ActorError;

verus! {

/// How a program stops.
///
/// `Fail` is an expected error and stays in the type. `Die` is a defect.
/// `Interrupt` is cancellation from a parent scope. Retries and `catch_fail`
/// see only `Fail`.
#[derive(Debug, Clone, PartialEq, Eq)]
pub enum Exit<E> {
    Fail(E),
    Die(String),
    Interrupt,
}

impl<E> Exit<E> {
    pub fn is_interrupt(&self) -> (interrupt: bool)
        ensures
            interrupt == (self is Interrupt),
    {
        matches!(self, Exit::Interrupt)
    }
}

impl From<ActorError> for Exit<ActorError> {
    fn from(error: ActorError) -> (exit: Exit<ActorError>) {
        Exit::Fail(error)
    }
}

impl vstd::std_specs::convert::FromSpecImpl<ActorError> for Exit<ActorError> {
    open spec fn obeys_from_spec() -> bool {
        true
    }

    open spec fn from_spec(error: ActorError) -> Exit<ActorError> {
        Exit::Fail(error)
    }
}

} // verus!
