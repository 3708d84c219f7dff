//! The framed transport: one message written as one frame, one frame read as
//! one message.

use vstd::prelude::*;
use crate::frame::{
    decode_length, encode_length, frame, header, header_of_header_value, header_value,
    header_value_of_header, wire_length, ByteOrder, HEADER_LEN,
};
use crate::stream::{
    clean_len, clean_len_after_bytes, clean_len_bounds, outcome_view, script_of, take_exact, Item,
    ReadError, Source,
};

verus! {

/// What reading one frame from the stream `items` comes to, and what is left
/// of the stream afterwards: four bytes are read as the length prefix, then
/// as many bytes as the prefix announces are read as the message.
pub open spec fn read_frame(order: ByteOrder, items: Seq<Item>) -> (
    Result<Seq<u8>, ReadError>,
    Seq<Item>,
) {
    let (prefix, rest) = take_exact(items, 4);
    match prefix {
        Ok(bytes) => take_exact(rest, header_value(order, bytes) as nat),
        Err(e) => (Err(e), rest),
    }
}

/// Appends the frame that carries `message` to `sink`.
///
/// The prefix holds the length of `message` as a 32-bit number. A message of
/// 2^32 bytes or more does not fit: its prefix holds the low 32 bits of its
/// length, and what is appended is no well-formed frame of it.
pub fn write(order: ByteOrder, message: &[u8], sink: &mut Vec<u8>)
    ensures
        final(sink)@ == old(sink)@ + frame(order, message@),
{
    let len: u64 = message.len() as u64;
    let n: u32 = (len % 0x1_0000_0000) as u32;
    let prefix = encode_length(order, n);
    let ghost before = sink@;
    sink.extend_from_slice(prefix.as_slice());
    sink.extend_from_slice(message);
    assert(sink@ =~= before + frame(order, message@));
}

/// Reads one frame from `source` and returns the message it carries.
///
/// Fails when the stream ends or reports a failure before the prefix and the
/// whole message have arrived; what had arrived by then is lost. A message is
/// never returned short.
pub fn read(order: ByteOrder, source: &mut Source) -> (outcome: Result<Vec<u8>, ReadError>)
    ensures
        (outcome_view(outcome), final(source)@) == read_frame(order, old(source)@),
{
    proof {
        clean_len_bounds(source@);
    }
    match source.read_exact(HEADER_LEN) {
        Ok(prefix) => {
            let bytes: [u8; 4] = [prefix[0], prefix[1], prefix[2], prefix[3]];
            assert(bytes@ =~= prefix@);
            let n = decode_length(order, bytes);
            source.read_exact(n as usize)
        },
        Err(e) => Err(e),
    }
}

/// Taking `n` bytes from a stream that starts with at least `n` bytes gives
/// those bytes and leaves the rest.
pub proof fn take_exact_of_bytes(bytes: Seq<u8>, tail: Seq<Item>)
    ensures
        take_exact(script_of(bytes) + tail, bytes.len()) == (
            Ok::<Seq<u8>, ReadError>(bytes),
            tail,
        ),
{
    let items = script_of(bytes) + tail;
    clean_len_after_bytes(bytes, tail);
    assert(items.take(bytes.len() as int) =~= script_of(bytes));
    assert(items.skip(bytes.len() as int) =~= tail);
}

/// A message of fewer than 2^32 bytes that was written is read back as it
/// was, and the stream stands right behind its frame.
pub proof fn read_after_write(order: ByteOrder, message: Seq<u8>, tail: Seq<Item>)
    requires
        message.len() <= u32::MAX,
    ensures
        read_frame(order, script_of(frame(order, message)) + tail) == (
            Ok::<Seq<u8>, ReadError>(message),
            tail,
        ),
{
    let n = wire_length(message.len());
    let prefix = header(order, n);
    header_value_of_header(order, n);
    let items = script_of(frame(order, message)) + tail;
    let rest = script_of(message) + tail;
    assert(items =~= script_of(prefix) + rest);
    take_exact_of_bytes(prefix, rest);
    take_exact_of_bytes(message, tail);
}

/// A frame that is cut short by the end of the stream is not read: the read
/// fails for want of bytes, wherever the cut falls, and returns no part of
/// the message.
pub proof fn read_of_truncated_frame(order: ByteOrder, message: Seq<u8>, kept: nat)
    requires
        message.len() <= u32::MAX,
        kept < frame(order, message).len(),
    ensures
        read_frame(order, script_of(frame(order, message).take(kept as int))) == (
            Err::<Seq<u8>, ReadError>(ReadError::UnexpectedEof),
            Seq::<Item>::empty(),
        ),
{
    read_of_interrupted_frame(order, message, kept, Seq::empty());
}

/// A frame that a fault or the end of the stream interrupts is not read. The
/// read fails, returns no part of the message, and the stream goes on behind
/// the fault if there was one.
pub proof fn read_of_interrupted_frame(
    order: ByteOrder,
    message: Seq<u8>,
    kept: nat,
    tail: Seq<Item>,
)
    requires
        message.len() <= u32::MAX,
        kept < frame(order, message).len(),
        tail.len() > 0 ==> tail[0] is Fault,
    ensures
        read_frame(order, script_of(frame(order, message).take(kept as int)) + tail) == (
            if tail.len() > 0 {
                (Err::<Seq<u8>, ReadError>(ReadError::Failed), tail.skip(1))
            } else {
                (Err::<Seq<u8>, ReadError>(ReadError::UnexpectedEof), Seq::<Item>::empty())
            }
        ),
{
    let n = wire_length(message.len());
    let prefix = header(order, n);
    header_value_of_header(order, n);
    let whole = frame(order, message);
    let cut = whole.take(kept as int);
    let items = script_of(cut) + tail;
    clean_len_after_bytes(cut, tail);
    assert(clean_len(tail) == 0);
    if kept < 4 {
        if tail.len() > 0 {
            assert(items.skip(kept as int + 1) =~= tail.skip(1));
        }
    } else {
        let body = message.take(kept - 4);
        let rest = script_of(body) + tail;
        assert(cut =~= prefix + body);
        assert(items =~= script_of(prefix) + rest);
        take_exact_of_bytes(prefix, rest);
        clean_len_after_bytes(body, tail);
        if tail.len() > 0 {
            assert(rest.skip(body.len() as int + 1) =~= tail.skip(1));
        }
    }
}

/// Bytes that were taken from a stream stood at its head, as many as were
/// asked for, and the stream stands right behind them.
pub proof fn take_exact_gives_head(items: Seq<Item>, n: nat, bytes: Seq<u8>)
    requires
        take_exact(items, n).0 == Ok::<Seq<u8>, ReadError>(bytes),
    ensures
        n <= items.len(),
        bytes.len() == n,
        items.take(n as int) == script_of(bytes),
        take_exact(items, n).1 == items.skip(n as int),
{
    clean_len_bounds(items);
    assert(items.take(n as int) =~= script_of(bytes));
}

/// Whatever a read returns was a whole frame at the head of the stream: the
/// message has the length its prefix announced, every byte of it was there,
/// and the stream stands right behind it.
pub proof fn read_returns_whole_frames(order: ByteOrder, items: Seq<Item>, message: Seq<u8>)
    requires
        read_frame(order, items).0 == Ok::<Seq<u8>, ReadError>(message),
    ensures
        message.len() <= u32::MAX,
        frame(order, message).len() == 4 + message.len(),
        frame(order, message).len() <= items.len(),
        items.take(frame(order, message).len() as int) == script_of(frame(order, message)),
        read_frame(order, items).1 == items.skip(frame(order, message).len() as int),
{
    let (first, rest) = take_exact(items, 4);
    let prefix = first->Ok_0;
    take_exact_gives_head(items, 4, prefix);
    header_of_header_value(order, prefix);
    let n = header_value(order, prefix) as nat;
    take_exact_gives_head(rest, n, message);
    assert(wire_length(message.len()) == n);
    let whole = frame(order, message);
    assert(whole == prefix + message);
    assert(rest.skip(n as int) =~= items.skip(4 + n as int));
    assert(items.take(4 + n as int) =~= items.take(4) + rest.take(n as int));
    assert(script_of(prefix + message) =~= script_of(prefix) + script_of(message));
}

} // verus!
