use vstd::prelude::*;
use crate::context::Context;

verus! {

/// Everything the worker understands. `F` is the type of a unit of work.
pub enum Message<F> {
    Action(Action<F>),
    System(System),
}

/// A unit of work, run once with exclusive access to the inventory and the
/// I/O context.
pub enum Action<F> {
    Call(F),
}

/// A control-plane command.
pub enum System {
    Shutdown,
    SetContext(Context),
    Reload(String),
    Store(String),
}

} // verus!
