use vstd::prelude::*;

use crate::error::FusoError;
use crate::poll::Poll;

verus! {

/// State of a one-shot value cell shared by a setter and a getter.
pub enum ValState<V> {
    Value(V),
    Nil,
    Invalid,
}

/// What `take` hands back for a cell in state `s`.
pub open spec fn take_result<V>(s: ValState<V>) -> Result<Option<V>, FusoError> {
    match s {
        ValState::Value(v) => Ok(Some(v)),
        ValState::Nil => Ok(None),
        ValState::Invalid => Err(FusoError::InvaledSetter),
    }
}

/// What a getter's poll yields for a cell in state `s`.
pub open spec fn poll_result<V>(s: ValState<V>) -> Poll<Result<V, FusoError>> {
    match s {
        ValState::Value(v) => Poll::Ready(Ok(v)),
        ValState::Nil => Poll::Pending,
        ValState::Invalid => Poll::Ready(Err(FusoError::InvaledSetter)),
    }
}

impl<V> ValState<V> {
    /// Takes the value out: `Ok(Some(v))` when a value was stored, `Ok(None)` when
    /// nothing was stored, `Err(InvaledSetter)` when the setter gave up.
    /// The cell is empty (`Nil`) afterwards in every case.
    pub fn take(&mut self) -> (r: Result<Option<V>, FusoError>)
        ensures
            *final(self) == ValState::<V>::Nil,
            r == take_result(*old(self)),
    {
        let mut prev = ValState::Nil;
        std::mem::swap(self, &mut prev);
        match prev {
            ValState::Nil => Ok(None),
            ValState::Value(v) => Ok(Some(v)),
            ValState::Invalid => Err(FusoError::InvaledSetter),
        }
    }

    /// Stores `val` and hands back the previous state.
    pub fn replace(&mut self, val: V) -> (prev: Self)
        ensures
            *final(self) == ValState::Value(val),
            prev == *old(self),
    {
        let mut prev = ValState::Value(val);
        std::mem::swap(self, &mut prev);
        prev
    }

    /// Marks the cell as abandoned by its setter; whatever it held is dropped.
    pub fn invalid(&mut self)
        ensures
            *final(self) == ValState::<V>::Invalid,
    {
        let mut prev = ValState::Invalid;
        std::mem::swap(self, &mut prev);
    }

    /// One poll of the getter: a stored value or the setter's failure is taken
    /// out and reported as ready; an empty cell is pending. The cell is `Nil` afterwards.
    pub fn poll_take(&mut self) -> (r: Poll<Result<V, FusoError>>)
        ensures
            *final(self) == ValState::<V>::Nil,
            r == poll_result(*old(self)),
    {
        match self.take() {
            Ok(Some(v)) => Poll::Ready(Ok(v)),
            Ok(None) => Poll::Pending,
            Err(e) => Poll::Ready(Err(e)),
        }
    }
}

/// A cell that holds a value yields it on the next poll of the getter, and the
/// poll after that finds the cell empty. This is a law of the cell alone: a
/// setter that is dropped right after setting marks the cell abandoned (see
/// `invalid`), and then the next poll fails instead.
pub proof fn law_value_then_poll<V>(v: V)
    ensures
        poll_result(ValState::Value(v)) == Poll::Ready(Ok::<V, FusoError>(v)),
        poll_result(ValState::<V>::Nil) == Poll::<Result<V, FusoError>>::Pending,
{
}

/// A cell marked abandoned makes the getter fail with `InvaledSetter`.
pub proof fn law_abandoned_then_poll<V>()
    ensures
        poll_result(ValState::<V>::Invalid) == Poll::<Result<V, FusoError>>::Ready(Err(FusoError::InvaledSetter)),
        take_result(ValState::<V>::Invalid) == Err::<Option<V>, FusoError>(FusoError::InvaledSetter),
{
}

} // verus!
