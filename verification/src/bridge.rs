//! The interface's end of the bridge: commands go out, updates come in.
use vstd::prelude::*;

use crate::harness::{Command, Update};

verus! {

/// The receiving end of a channel of `async_channel`. Other threads hold the sending ends,
/// so nothing is claimed of what is in it.
#[verifier::external_type_specification]
#[verifier::external_body]
#[verifier::reject_recursive_types(T)]
pub struct ExReceiver<T>(async_channel::Receiver<T>);

/// The sending end of a channel of std.
#[verifier::external_type_specification]
#[verifier::external_body]
#[verifier::reject_recursive_types(T)]
pub struct ExSender<T>(std::sync::mpsc::Sender<T>);

/// `Receiver::try_recv` of `async_channel`: the next update, where one is there. What that
/// is rests with the threads that send, so nothing is claimed of it. The number tells the
/// asks of one batch apart; the channel is not given it.
#[verifier::external_body]
fn next_update(updates: &async_channel::Receiver<Update>, _number: usize) -> (r: Option<Update>) {
    updates.try_recv().ok()
}

/// Whether a channel may answer the ask of this number in this way: with an update that
/// came in, or with none.
pub closed spec fn may_answer(
    updates: &async_channel::Receiver<Update>,
    number: usize,
    answer: Option<Update>,
) -> bool {
    call_ensures(next_update, (updates, number), answer)
}

/// `Sender::send` of std's channels: hands the command over. Nobody may be left to take it,
/// and nothing is told of that.
#[verifier::external_body]
fn hand_over(commands: &std::sync::mpsc::Sender<Command>, command: Command) {
    let _ = commands.send(command);
}

/// The interface's end of the bridge.
pub struct Bridge {
    pub commands: std::sync::mpsc::Sender<Command>,
    pub updates: async_channel::Receiver<Update>,
}

/// Takes what came in, if anything, behind what is there. Returns whether there is room
/// for more, and reason to look for it.
pub fn take_update(taken: &mut Vec<Update>, next: Option<Update>, limit: usize) -> (r: bool)
    ensures
        final(taken)@ == match next {
            Some(update) => old(taken)@.push(update),
            None => old(taken)@,
        },
        r == (next is Some && final(taken)@.len() < limit),
{
    match next {
        Some(update) => {
            taken.push(update);
            taken.len() < limit
        },
        None => false,
    }
}

impl Bridge {
    /// Hands a command to the bridge.
    pub fn send(&self, command: Command) {
        hand_over(&self.commands, command);
    }

    /// Takes at most so many updates, in the order in which the channel gives them; the
    /// others stay where they are, so that a busy sender cannot keep the interface. The
    /// update at each place is the channel's answer to the ask of that number, and there
    /// are fewer than the limit only where the next ask was answered with none.
    pub fn drain_up_to(&self, limit: usize) -> (r: Vec<Update>)
        ensures
            r@.len() <= limit,
            forall|k: int|
                0 <= k < r@.len() ==> may_answer(
                    &self.updates,
                    k as usize,
                    Some(#[trigger] r@[k]),
                ),
            r@.len() < limit ==> may_answer(&self.updates, r@.len() as usize, None),
    {
        let ask = next_update;
        let mut taken: Vec<Update> = Vec::new();
        let mut more = limit > 0;
        while more
            invariant
                taken@.len() <= limit,
                more ==> taken@.len() < limit,
                forall|k: int|
                    0 <= k < taken@.len() ==> may_answer(
                        &self.updates,
                        k as usize,
                        Some(#[trigger] taken@[k]),
                    ),
                !more && taken@.len() < limit ==> may_answer(
                    &self.updates,
                    taken@.len() as usize,
                    None,
                ),
            decreases limit - taken@.len(), more as int,
        {
            let next = ask(&self.updates, taken.len());
            more = take_update(&mut taken, next, limit);
        }
        taken
    }
}

} // verus!
