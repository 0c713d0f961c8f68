use vstd::prelude::*;
use crate::context::Context;
use crate::control::controller::Controller;
use crate::failure::Failure;
use crate::state::device::gateway::{Gateway, Transport};

verus! {

/// The I/O context a unit of work runs with: the environment's context and
/// a handle through which further messages, of type `M`, can be submitted
/// to the same worker. What is submitted is queued, not run at once.
#[verifier::reject_recursive_types(M)]
pub struct IO<M> {
    pub context: Context,
    pub controller: Controller<M>,
}

/// A value that can be turned into the parameters of a gateway command.
pub trait ToMessage {
    fn to_message(&self) -> Result<Vec<Parameter>, Failure>;
}

/// One named parameter of a gateway command.
#[derive(Debug)]
pub struct Parameter {
    pub name: &'static str,
    pub value: Value,
}

/// The values a parameter can carry.
#[derive(Debug, Clone, Copy, PartialEq, Eq, Structural)]
pub enum Value {
    Bool(bool),
    U8(u8),
}

/// A command ready for a transport: which kind of channel it goes through
/// and the parameters it carries.
pub struct Dispatch {
    pub transport: Transport,
    pub parameters: Vec<Parameter>,
}

/// `encoded` is something that encoding `msg` may give: it meets whatever
/// the type of `msg` promises of its encoding.
pub open spec fn encodes<M: ToMessage>(msg: M, encoded: Result<Vec<Parameter>, Failure>) -> bool {
    call_ensures(M::to_message, (&msg,), encoded)
}

/// What an encoded command comes to when it is addressed to `gateway`: the
/// parameters untouched under the gateway's kind of channel, or the
/// failure of the encoding as it is.
pub open spec fn dispatched(gateway: Gateway, encoded: Result<Vec<Parameter>, Failure>) -> Result<
    Dispatch,
    Failure,
> {
    match encoded {
        Ok(parameters) => Ok((Dispatch { transport: gateway.spec_transport(), parameters })),
        Err(failure) => Err(failure),
    }
}

/// Addresses an encoded command to `gateway`: the parameters are passed on
/// untouched under the gateway's kind of channel, and a failed encoding is
/// passed on as it is.
pub fn dispatch(gateway: &Gateway, encoded: Result<Vec<Parameter>, Failure>) -> (out: Result<
    Dispatch,
    Failure,
>)
    ensures
        out == dispatched(*gateway, encoded),
{
    match encoded {
        Ok(parameters) => Ok(Dispatch { transport: gateway.transport(), parameters }),
        Err(failure) => Err(failure),
    }
}

impl<Q> IO<Q> {
    /// Encodes `msg` and addresses it to `gateway`. What comes out is what
    /// the encoding of `msg` gave, addressed: its parameters untouched
    /// under the gateway's kind of channel, or its failure as it is. What
    /// the encoding gives is up to the type of `msg`.
    pub fn send<M: ToMessage>(gateway: &Gateway, msg: M) -> (out: Result<Dispatch, Failure>)
        ensures
            exists|encoded: Result<Vec<Parameter>, Failure>| #[trigger]
                encodes(msg, encoded) && out == dispatched(*gateway, encoded),
            out matches Ok(command) ==> command.transport == gateway.spec_transport(),
    {
        let encoded = msg.to_message();
        assert(encodes(msg, encoded));
        dispatch(gateway, encoded)
    }
}

} // verus!
