//! The actor runtime: a state that reacts to one input at a time, and the
//! agent that feeds it from a mailbox.

use vstd::prelude::*;

use crate::handle::{handle, queue_made, stream_made, Context, Handle};

verus! {

/// A state machine that an agent can run. `handle` is the only place where
/// the state changes, and the agent calls it for one input at a time, so a
/// state needs no synchronization of its own.
pub trait State: Sized {
    type Input;

    type Output: Clone + Send;

    /// Takes one input, updates the state, and returns the outputs to
    /// broadcast, in the order in which they are to be sent.
    fn handle(&mut self, msg: Self::Input) -> Vec<Self::Output>;

    /// Wraps the state into an agent behind a mailbox that holds 64 messages
    /// each way, and returns the mailbox's handle with it.
    fn agent(self) -> (made: (Handle<Self::Input, Self::Output>, StateAgent<Self>))
        ensures
            made.1.state == self,
            made.1.context.capacity() == 64,
            queue_made(64, made.0.writer.sender(), made.1.context.inbox()),
            stream_made(64, made.1.context.outbox(), made.0.reader.receiver()),
    {
        let (handle, context) = handle(64);
        (handle, StateAgent { state: self, context })
    }
}

/// Whether every one of these outputs was handed to [`Context::push`] of
/// this context, and `lost` holds, output by output, what it reported.
pub open spec fn pushed<In, Out: Clone>(
    context: &Context<In, Out>,
    outputs: Seq<Out>,
    lost: Seq<bool>,
) -> bool {
    &&& lost.len() == outputs.len()
    &&& forall|i: int|
        0 <= i < lost.len() ==> call_ensures(
            Context::<In, Out>::push,
            (context, outputs[i]),
            #[trigger] lost[i],
        )
}

/// The number of outputs that were not reported lost.
pub open spec fn kept(lost: Seq<bool>) -> nat
    decreases lost.len(),
{
    if lost.len() == 0 {
        0
    } else if lost.last() {
        kept(lost.drop_last())
    } else {
        kept(lost.drop_last()) + 1
    }
}

/// A state bound to the inside of its mailbox.
pub struct StateAgent<S: State> {
    pub state: S,
    pub context: Context<S::Input, S::Output>,
}

impl<S: State> StateAgent<S> {
    /// The state as the inputs handled so far have left it.
    pub fn state(&self) -> (state: &S)
        ensures
            *state == self.state,
    {
        &self.state
    }

    /// Hands one input to the state and broadcasts every output it returns,
    /// in the order returned. An output that no reader is left to receive is
    /// dropped, and the outputs behind it are broadcast all the same. Returns
    /// the number of outputs that were delivered.
    ///
    /// The state is afterwards as `handle` has left it. Every output that
    /// `handle` returned was handed to [`Context::push`] of the agent's
    /// context, and the result counts those that it did not report lost.
    pub fn message(&mut self, msg: S::Input) -> (delivered: usize)
        ensures
            final(self).context == old(self).context,
            exists|state: &mut S, outputs: Vec<S::Output>, lost: Seq<bool>|
                {
                    &&& *state == old(self).state && *final(state) == final(self).state
                    &&& #[trigger] call_ensures(S::handle, (state, msg), outputs)
                    &&& pushed(&old(self).context, outputs@, lost)
                    &&& delivered == #[trigger] kept(lost)
                },
    {
        let ghost input = msg;
        let outputs = self.state.handle(msg);
        let ghost returned = outputs;
        let ghost state = choose|state: &mut S|
            {
                &&& *state == old(self).state && *final(state) == self.state
                &&& #[trigger] call_ensures(S::handle, (state, input), returned)
            };
        let total = outputs.len();
        let mut delivered: usize = 0;
        let ghost mut lost: Seq<bool> = Seq::empty();
        for output in each: outputs
            invariant
                each.seq() == returned@,
                total == returned@.len(),
                self.context == old(self).context,
                self.state == *final(state),
                lost.len() == each.index(),
                forall|i: int|
                    0 <= i < lost.len() ==> call_ensures(
                        Context::<S::Input, S::Output>::push,
                        (&old(self).context, returned@[i]),
                        #[trigger] lost[i],
                    ),
                delivered == kept(lost),
                delivered <= each.index() <= total,
        {
            let missed = self.context.push(output);
            proof {
                assert(lost.push(missed).drop_last() =~= lost);
                lost = lost.push(missed);
            }
            if !missed {
                delivered = delivered + 1;
            }
        }
        assert(pushed(&old(self).context, returned@, lost));
        delivered
    }

    /// Waits for the next input and handles it as [`StateAgent::message`]
    /// does. What [`Context::pop`] yields decides: on an input the state is
    /// handed that input and the result is `true`; on `None`, which says that
    /// the mailbox is closed and drained, nothing is handled and the result
    /// is `false`.
    pub fn step(&mut self) -> (more: bool)
        ensures
            final(self).context == old(self).context,
            exists|input: Option<S::Input>|
                {
                    &&& #[trigger] call_ensures(
                        Context::<S::Input, S::Output>::pop,
                        (&old(self).context,),
                        input,
                    )
                    &&& more == (input is Some)
                    &&& match input {
                        Some(msg) => exists|state: &mut S, outputs: Vec<S::Output>|
                            {
                                &&& *state == old(self).state
                                &&& *final(state) == final(self).state
                                &&& #[trigger] call_ensures(S::handle, (state, msg), outputs)
                            },
                        None => final(self).state == old(self).state,
                    }
                },
    {
        match self.context.pop() {
            Some(msg) => {
                let _ = self.message(msg);
                true
            },
            None => false,
        }
    }
}

} // verus!
