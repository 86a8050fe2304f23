use vstd::prelude::*;

verus! {

/// Outcome of a pull: progress now, or none yet (the caller will be woken later).
#[derive(PartialEq, Eq, Debug)]
pub enum Async<T> {
    Ready(T),
    NotReady,
}

/// Outcome of a push: the item was taken, or it is handed back unchanged.
#[derive(PartialEq, Eq, Debug)]
pub enum AsyncSink<T> {
    Ready,
    NotReady(T),
}

pub type Poll<T, E> = Result<Async<T>, E>;

pub type StartSend<T, E> = Result<AsyncSink<T>, E>;

} // verus!
