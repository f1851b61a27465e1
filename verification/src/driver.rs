//! What the polling loop does with the outcome of a read, and what the
//! handler does with a record.

use crate::fanotify::{read_outcome, records, ByteOrder, FanotifyEventMetadata, WatcherError};
use vstd::prelude::*;

verus! {

/// How long the loop sleeps when the channel had no event, in milliseconds.
pub const IDLE_BACKOFF_MILLIS: u64 = 100;

/// What the polling loop does next.
#[derive(Clone, Copy, Debug, PartialEq, Eq, Structural)]
pub enum LoopAction {
    /// No event is pending: sleep, then read again.
    Sleep { millis: u64 },
    /// Hand the records in the first `len` bytes of the buffer to the
    /// handler, then read again.
    Dispatch { len: usize },
    /// The channel is broken: leave the loop with this error.
    Stop { error: WatcherError },
}

/// The action that follows a read.
pub open spec fn next_action_spec(read: Result<usize, WatcherError>) -> LoopAction {
    match read {
        Ok(len) => if len == 0 {
            LoopAction::Sleep { millis: IDLE_BACKOFF_MILLIS }
        } else {
            LoopAction::Dispatch { len }
        },
        Err(error) => LoopAction::Stop { error },
    }
}

/// Decides what the polling loop does after a read.
pub fn next_action(read: Result<usize, WatcherError>) -> (action: LoopAction)
    ensures
        action == next_action_spec(read),
{
    match read {
        Ok(len) => if len == 0 {
            LoopAction::Sleep { millis: IDLE_BACKOFF_MILLIS }
        } else {
            LoopAction::Dispatch { len }
        },
        Err(error) => LoopAction::Stop { error },
    }
}

/// The record comes with a descriptor, which is to be resolved to a path and
/// then closed. A record without one is passed over.
pub fn has_descriptor(metadata: &FanotifyEventMetadata) -> (r: bool)
    ensures
        r == (metadata.fd >= 0),
{
    metadata.fd >= 0
}

/// One step in the handling of a record.
#[derive(Clone, Copy, Debug, PartialEq, Eq, Structural)]
pub enum HandlerStep {
    /// Find the path that the descriptor stands for.
    Resolve { fd: i32 },
    /// Fix the attributes of the path that was found.
    Fix,
    /// Close the descriptor.
    Close { fd: i32 },
    /// Nothing is left to do for this record.
    Return,
}

/// The step that the handling of a record begins with: its descriptor is
/// resolved, if it has one.
pub open spec fn first_step_spec(metadata: FanotifyEventMetadata) -> HandlerStep {
    if metadata.fd >= 0 {
        HandlerStep::Resolve { fd: metadata.fd }
    } else {
        HandlerStep::Return
    }
}

/// The step that follows `last`. A path that was found is fixed. Whether it
/// was found or not, and whether fixing it went well or not, the descriptor
/// is closed then, and that ends the handling.
pub open spec fn next_step_spec(
    metadata: FanotifyEventMetadata,
    last: HandlerStep,
    succeeded: bool,
) -> HandlerStep {
    match last {
        HandlerStep::Resolve { .. } => if succeeded {
            HandlerStep::Fix
        } else {
            HandlerStep::Close { fd: metadata.fd }
        },
        HandlerStep::Fix => HandlerStep::Close { fd: metadata.fd },
        HandlerStep::Close { .. } => HandlerStep::Return,
        HandlerStep::Return => HandlerStep::Return,
    }
}

/// Leads the handler through one record. It is called with `None` first, and
/// after each step with the step and whether it succeeded, until it answers
/// `HandlerStep::Return`.
pub fn handler_step(metadata: &FanotifyEventMetadata, last: Option<(HandlerStep, bool)>) -> (step:
    HandlerStep)
    ensures
        step == (match last {
            None => first_step_spec(*metadata),
            Some((taken, succeeded)) => next_step_spec(*metadata, taken, succeeded),
        }),
{
    match last {
        None => if has_descriptor(metadata) {
            HandlerStep::Resolve { fd: metadata.fd }
        } else {
            HandlerStep::Return
        },
        Some((HandlerStep::Resolve { .. }, true)) => HandlerStep::Fix,
        Some((HandlerStep::Resolve { .. }, false)) => HandlerStep::Close { fd: metadata.fd },
        Some((HandlerStep::Fix, _)) => HandlerStep::Close { fd: metadata.fd },
        Some((HandlerStep::Close { .. }, _)) => HandlerStep::Return,
        Some((HandlerStep::Return, _)) => HandlerStep::Return,
    }
}

/// The steps that are taken from `step` on until the handling ends, where
/// `outcomes` says of each step in turn whether it succeeds.
pub open spec fn steps_from(
    metadata: FanotifyEventMetadata,
    step: HandlerStep,
    outcomes: Seq<bool>,
) -> Seq<HandlerStep>
    decreases outcomes.len(),
{
    if step == HandlerStep::Return || outcomes.len() == 0 {
        Seq::empty()
    } else {
        seq![step] + steps_from(
            metadata,
            next_step_spec(metadata, step, outcomes[0]),
            outcomes.drop_first(),
        )
    }
}

/// The steps that the handling of a record takes.
pub open spec fn handling(metadata: FanotifyEventMetadata, outcomes: Seq<bool>) -> Seq<
    HandlerStep,
> {
    steps_from(metadata, first_step_spec(metadata), outcomes)
}

/// Whatever fails, the descriptor of a record is closed exactly once, as the
/// last step, after it was resolved: the handling is resolve, fix, close
/// where the path is found, and resolve, close where it is not. A record
/// without descriptor takes no step.
pub proof fn lemma_descriptor_is_closed_once(metadata: FanotifyEventMetadata, outcomes: Seq<bool>)
    requires
        outcomes.len() >= 3,
    ensures
        metadata.fd < 0 ==> handling(metadata, outcomes) == Seq::<HandlerStep>::empty(),
        metadata.fd >= 0 && outcomes[0] ==> handling(metadata, outcomes) == seq![
            HandlerStep::Resolve { fd: metadata.fd },
            HandlerStep::Fix,
            HandlerStep::Close { fd: metadata.fd },
        ],
        metadata.fd >= 0 && !outcomes[0] ==> handling(metadata, outcomes) == seq![
            HandlerStep::Resolve { fd: metadata.fd },
            HandlerStep::Close { fd: metadata.fd },
        ],
{
    reveal_with_fuel(steps_from, 5);
    let rest = outcomes.drop_first();
    let last = rest.drop_first();
    assert(rest.len() >= 2 && last.len() >= 1);
    if metadata.fd >= 0 {
        if outcomes[0] {
            assert(handling(metadata, outcomes) =~= seq![
                HandlerStep::Resolve { fd: metadata.fd },
                HandlerStep::Fix,
                HandlerStep::Close { fd: metadata.fd },
            ]);
        } else {
            assert(handling(metadata, outcomes) =~= seq![
                HandlerStep::Resolve { fd: metadata.fd },
                HandlerStep::Close { fd: metadata.fd },
            ]);
        }
    }
}

/// A read that delivers no bytes is no error, whatever error number is left
/// over; it sends the loop to sleep; and the part of the buffer that it
/// filled holds no record for a handler.
pub proof fn lemma_empty_read_is_idle(errno: i32, buf: Seq<u8>, order: ByteOrder)
    ensures
        read_outcome(0, errno) == Ok::<usize, WatcherError>(0usize),
        next_action_spec(read_outcome(0, errno)) == (LoopAction::Sleep {
            millis: IDLE_BACKOFF_MILLIS,
        }),
        records(buf.take(0), order).len() == 0,
{
}

} // verus!
