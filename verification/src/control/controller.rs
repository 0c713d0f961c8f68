use vstd::prelude::*;
use crate::control::message::{Action, Message};

verus! {

/// The sending end of a queue of std, `std::sync::mpsc::Sender`. Nothing is
/// known of what stands in the queue: the other end belongs to another
/// thread.
#[verifier::external_type_specification]
#[verifier::external_body]
#[verifier::reject_recursive_types(T)]
pub struct ExSender<T>(std::sync::mpsc::Sender<T>);

/// The handle through which messages of type `M` are submitted to the
/// worker's queue. It can be cloned freely; every clone feeds the same
/// queue.
#[verifier::reject_recursive_types(M)]
pub struct Controller<M> {
    sender: std::sync::mpsc::Sender<M>,
}

impl<M> Clone for Controller<M> {
    /// `Sender::clone` of std: another sending end of the same queue.
    /// Nothing is claimed of it.
    #[verifier::external_body]
    fn clone(&self) -> (copy: Self) {
        Controller { sender: self.sender.clone() }
    }
}

impl<M> Controller<M> {
    /// The sending end that this handle submits through.
    pub closed spec fn endpoint(&self) -> std::sync::mpsc::Sender<M> {
        self.sender
    }

    /// A handle that submits through `sender`.
    pub fn attach(sender: std::sync::mpsc::Sender<M>) -> (controller: Self)
        ensures
            controller.endpoint() == sender,
    {
        Controller { sender }
    }

    /// `Sender::send` of std: puts `msg` at the end of the queue, without
    /// waiting for it to be handled. Whether that succeeds depends on
    /// whether the receiving end still exists, which this contract leaves
    /// open; it claims only what std documents of a failure: the message
    /// comes back as it was.
    #[verifier::external_body]
    pub fn send_msg(&self, msg: M) -> (sent: Result<(), M>)
        ensures
            sent matches Err(back) ==> back == msg,
    {
        match self.sender.send(msg) {
            Ok(()) => Ok(()),
            Err(err) => Err(err.0),
        }
    }
}

/// Sending `msg` through `controller` may come to `sent`: `sent` meets what
/// `send_msg` promises of its result.
pub open spec fn sends<M>(controller: Controller<M>, msg: M, sent: Result<(), M>) -> bool {
    call_ensures(Controller::<M>::send_msg, (&controller, msg), sent)
}

impl<F> Controller<Message<F>> {
    /// Submits `call` as a unit of work: wraps it as an action and sends
    /// that message through this handle. Succeeds exactly when the sending
    /// does, which is as soon as the message is in the queue; where the
    /// queue is gone, `call` comes back unrun.
    pub fn call(&self, call: F) -> (sent: Result<(), F>)
        ensures
            exists|outcome: Result<(), Message<F>>| #[trigger]
                sends(*self, Message::Action(Action::Call(call)), outcome) && (outcome is Ok
                    <==> sent is Ok),
            sent matches Err(back) ==> back == call,
    {
        let outcome = self.send_msg(Message::Action(Action::Call(call)));
        assert(sends(*self, Message::Action(Action::Call(call)), outcome));
        match outcome {
            Ok(()) => Ok(()),
            Err(Message::Action(Action::Call(back))) => Err(back),
            Err(Message::System(_)) => unreached(),
        }
    }
}

} // verus!
