//! The read dispatcher: reads frame after frame and hands each message on,
//! in the order of arrival, whatever reads fail in between.

use vstd::prelude::*;
use crate::frame::{frame, ByteOrder};
use crate::stream::{script_of, Item, ReadError, Source};
use crate::transport::{read, read_after_write, read_frame, read_of_interrupted_frame};

verus! {

/// Where a dispatcher stands in its life.
#[derive(Clone, Copy, PartialEq, Eq, Debug, Structural)]
pub enum DispatcherState {
    /// Not started: nothing reads the inbound stream.
    Idle,
    /// Started: the read loop owns the inbound stream.
    Listening,
}

/// Starts the dispatcher. From here on it listens; nothing stops it again.
pub fn spawn_read_loop(state: DispatcherState) -> (next: DispatcherState)
    ensures
        next == DispatcherState::Listening,
{
    match state {
        DispatcherState::Idle => DispatcherState::Listening,
        DispatcherState::Listening => DispatcherState::Listening,
    }
}

/// What the loop does with the outcome of one read: a message is handed on,
/// a failure is dropped and the loop reads again.
pub fn on_read(outcome: Result<Vec<u8>, ReadError>) -> (delivery: Option<Vec<u8>>)
    ensures
        delivery == (match outcome {
            Ok(message) => Some(message),
            Err(_) => None::<Vec<u8>>,
        }),
{
    match outcome {
        Ok(message) => Some(message),
        Err(_) => None,
    }
}

/// The messages in `inbox`, each by its bytes.
pub open spec fn messages(inbox: Seq<Vec<u8>>) -> Seq<Seq<u8>> {
    inbox.map_values(|message: Vec<u8>| message@)
}

/// What `attempts` turns of the read loop hand on from the stream `items`, in
/// order, and what is left of the stream afterwards.
pub open spec fn deliveries(order: ByteOrder, items: Seq<Item>, attempts: nat) -> (
    Seq<Seq<u8>>,
    Seq<Item>,
)
    decreases attempts,
{
    if attempts == 0 {
        (Seq::empty(), items)
    } else {
        let (outcome, rest) = read_frame(order, items);
        let (later, left) = deliveries(order, rest, (attempts - 1) as nat);
        match outcome {
            Ok(message) => (seq![message] + later, left),
            Err(_) => (later, left),
        }
    }
}

/// The frames of `messages`, one behind the other.
pub open spec fn frames(order: ByteOrder, messages: Seq<Seq<u8>>) -> Seq<u8>
    decreases messages.len(),
{
    if messages.len() == 0 {
        Seq::empty()
    } else {
        frame(order, messages[0]) + frames(order, messages.skip(1))
    }
}

/// Runs the read loop for `attempts` turns: each turn reads one frame from
/// `source` and appends its message to `inbox`; a turn whose read fails
/// appends nothing, and the loop goes on.
pub fn read_loop(
    order: ByteOrder,
    source: &mut Source,
    attempts: usize,
    inbox: &mut Vec<Vec<u8>>,
)
    ensures
        messages(final(inbox)@) == messages(old(inbox)@) + deliveries(
            order,
            old(source)@,
            attempts as nat,
        ).0,
        final(source)@ == deliveries(order, old(source)@, attempts as nat).1,
{
    let ghost total = deliveries(order, source@, attempts as nat);
    let ghost before = messages(inbox@);
    let mut turn: usize = 0;
    assert(messages(inbox@) + total.0 =~= before + total.0);
    while turn < attempts
        invariant
            turn <= attempts,
            messages(inbox@) + deliveries(order, source@, (attempts - turn) as nat).0 == before
                + total.0,
            deliveries(order, source@, (attempts - turn) as nat).1 == total.1,
        decreases attempts - turn,
    {
        let ghost items = source@;
        let ghost held = messages(inbox@);
        let ghost later = deliveries(order, read_frame(order, items).1, (attempts - turn - 1) as nat);
        let outcome = read(order, source);
        match on_read(outcome) {
            Some(message) => {
                inbox.push(message);
                assert(messages(inbox@) =~= held.push(message@));
                assert(held.push(message@) + later.0 =~= held + (seq![message@] + later.0));
            },
            None => {},
        }
        turn += 1;
    }
    assert(messages(inbox@) + Seq::<Seq<u8>>::empty() =~= messages(inbox@));
}

/// Once the stream has ended, no number of turns hands anything on.
pub proof fn nothing_after_end(order: ByteOrder, attempts: nat)
    ensures
        deliveries(order, Seq::empty(), attempts) == (
            Seq::<Seq<u8>>::empty(),
            Seq::<Item>::empty(),
        ),
    decreases attempts,
{
    if attempts > 0 {
        nothing_after_end(order, (attempts - 1) as nat);
    }
}

/// One turn on a stream that starts with the frame of a message hands that
/// message on first, and then whatever the rest of the stream gives.
pub proof fn frame_is_delivered_first(
    order: ByteOrder,
    message: Seq<u8>,
    tail: Seq<Item>,
    attempts: nat,
)
    requires
        message.len() <= u32::MAX,
    ensures
        deliveries(order, script_of(frame(order, message)) + tail, attempts + 1) == (
            seq![message] + deliveries(order, tail, attempts).0,
            deliveries(order, tail, attempts).1,
        ),
{
    read_after_write(order, message, tail);
}

/// Messages are handed on in the order in which their frames stand in the
/// stream, none left out and none twice, as soon as the loop has had a turn
/// for each; further turns find the stream ended and add nothing.
pub proof fn frames_are_delivered_in_order(
    order: ByteOrder,
    messages: Seq<Seq<u8>>,
    attempts: nat,
)
    requires
        forall|i: int| 0 <= i < messages.len() ==> (#[trigger] messages[i]).len() <= u32::MAX,
        attempts >= messages.len(),
    ensures
        deliveries(order, script_of(frames(order, messages)), attempts) == (
            messages,
            Seq::<Item>::empty(),
        ),
    decreases messages.len(),
{
    if messages.len() == 0 {
        assert(script_of(frames(order, messages)) =~= Seq::<Item>::empty());
        nothing_after_end(order, attempts);
    } else {
        let first = messages[0];
        let others = messages.skip(1);
        let tail = script_of(frames(order, others));
        assert forall|i: int| 0 <= i < others.len() implies (#[trigger] others[i]).len()
            <= u32::MAX by {
            assert(others[i] == messages[i + 1]);
        }
        frames_are_delivered_in_order(order, others, (attempts - 1) as nat);
        assert(script_of(frames(order, messages)) =~= script_of(frame(order, first)) + tail);
        frame_is_delivered_first(order, first, tail, (attempts - 1) as nat);
        assert(seq![first] + others =~= messages);
    }
}

/// A read that fails costs the loop one turn and no message: where a fault
/// interrupts a frame, however much of it had arrived, the loop drops the
/// piece and hands on the message of the frame that follows.
pub proof fn delivery_survives_failed_read(
    order: ByteOrder,
    broken: Seq<u8>,
    kept: nat,
    message: Seq<u8>,
    tail: Seq<Item>,
    attempts: nat,
)
    requires
        broken.len() <= u32::MAX,
        kept < frame(order, broken).len(),
        message.len() <= u32::MAX,
    ensures
        deliveries(
            order,
            script_of(frame(order, broken).take(kept as int)) + seq![Item::Fault] + script_of(
                frame(order, message),
            ) + tail,
            attempts + 2,
        ) == (
            seq![message] + deliveries(order, tail, attempts).0,
            deliveries(order, tail, attempts).1,
        ),
{
    let piece = script_of(frame(order, broken).take(kept as int));
    let good = script_of(frame(order, message)) + tail;
    let behind = seq![Item::Fault] + good;
    let items = piece + seq![Item::Fault] + script_of(frame(order, message)) + tail;
    assert(items =~= piece + behind);
    assert(behind.skip(1) =~= good);
    read_of_interrupted_frame(order, broken, kept, behind);
    frame_is_delivered_first(order, message, tail, attempts);
    assert(deliveries(order, items, attempts + 2) == deliveries(order, good, attempts + 1));
}

} // verus!
