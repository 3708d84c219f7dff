//! An inbound byte stream held in memory, with read failures scripted into it.

use vstd::prelude::*;

verus! {

/// One step of what a stream has in store for its reader.
#[derive(Clone, Copy, PartialEq, Eq, Debug, Structural)]
pub enum Item {
    /// A byte that the next read receives.
    Byte(u8),
    /// A failure that strikes the read that reaches it.
    Fault,
}

/// Why a read did not return what was asked for.
#[derive(Clone, Copy, PartialEq, Eq, Debug, Structural)]
pub enum ReadError {
    /// The stream ended before all the bytes had arrived.
    UnexpectedEof,
    /// The stream reported a failure.
    Failed,
}

/// The stream that holds the bytes `bytes` and no fault.
pub open spec fn script_of(bytes: Seq<u8>) -> Seq<Item> {
    Seq::new(bytes.len(), |i: int| Item::Byte(bytes[i]))
}

/// The bytes that the items of `items` carry, where all of them are bytes.
pub open spec fn bytes_of(items: Seq<Item>) -> Seq<u8> {
    Seq::new(items.len(), |i: int| items[i]->Byte_0)
}

/// How many bytes the stream holds before its first fault or its end.
pub open spec fn clean_len(items: Seq<Item>) -> nat
    decreases items.len(),
{
    if items.len() > 0 && items[0] is Byte {
        1 + clean_len(items.skip(1))
    } else {
        0
    }
}

/// What reading exactly `n` bytes from the stream `items` comes to, and what
/// is left of the stream afterwards.
///
/// The read succeeds when `n` bytes come before the first fault. Otherwise it
/// fails, and the bytes it had received are lost with it: at a fault, the
/// stream goes on behind the fault; at the end, nothing is left.
pub open spec fn take_exact(items: Seq<Item>, n: nat) -> (Result<Seq<u8>, ReadError>, Seq<Item>) {
    let clean = clean_len(items);
    if n <= clean {
        (Ok(bytes_of(items.take(n as int))), items.skip(n as int))
    } else if clean < items.len() {
        (Err(ReadError::Failed), items.skip(clean as int + 1))
    } else {
        (Err(ReadError::UnexpectedEof), Seq::empty())
    }
}

/// The first `clean_len` items are bytes, and a fault follows them unless the
/// stream ends there.
pub proof fn clean_len_bounds(items: Seq<Item>)
    ensures
        clean_len(items) <= items.len(),
        forall|i: int| 0 <= i < clean_len(items) ==> items[i] is Byte,
        clean_len(items) < items.len() ==> items[clean_len(items) as int] is Fault,
    decreases items.len(),
{
    if items.len() > 0 && items[0] is Byte {
        let rest = items.skip(1);
        clean_len_bounds(rest);
        assert forall|i: int| 0 <= i < clean_len(items) implies items[i] is Byte by {
            if i > 0 {
                assert(items[i] == rest[i - 1]);
            }
        }
        if clean_len(items) < items.len() {
            assert(items[clean_len(items) as int] == rest[clean_len(rest) as int]);
        }
    }
}

/// A stream that starts with `k` bytes and then ends or has a fault holds
/// exactly `k` bytes before its first fault or its end.
pub proof fn clean_len_is(items: Seq<Item>, k: nat)
    requires
        k <= items.len(),
        forall|i: int| 0 <= i < k ==> items[i] is Byte,
        k < items.len() ==> items[k as int] is Fault,
    ensures
        clean_len(items) == k,
    decreases k,
{
    if k > 0 {
        let rest = items.skip(1);
        assert forall|i: int| 0 <= i < k - 1 implies rest[i] is Byte by {
            assert(rest[i] == items[i + 1]);
        }
        if k < items.len() {
            assert(rest[k - 1] == items[k as int]);
        }
        clean_len_is(rest, (k - 1) as nat);
    }
}

/// Bytes put in front of a stream come before everything the stream held.
pub proof fn clean_len_after_bytes(bytes: Seq<u8>, tail: Seq<Item>)
    ensures
        clean_len(script_of(bytes) + tail) == bytes.len() + clean_len(tail),
        bytes_of(script_of(bytes)) == bytes,
{
    let items = script_of(bytes) + tail;
    let k = bytes.len() + clean_len(tail);
    clean_len_bounds(tail);
    assert forall|i: int| 0 <= i < k implies items[i] is Byte by {
        if i >= bytes.len() {
            assert(items[i] == tail[i - bytes.len()]);
        }
    }
    if k < items.len() {
        assert(items[k as int] == tail[clean_len(tail) as int]);
    }
    clean_len_is(items, k);
    assert(bytes_of(script_of(bytes)) =~= bytes);
}

/// The result of a read as contracts speak of it: the bytes by their value.
pub open spec fn outcome_view(outcome: Result<Vec<u8>, ReadError>) -> Result<Seq<u8>, ReadError> {
    match outcome {
        Ok(bytes) => Ok(bytes@),
        Err(e) => Err(e),
    }
}

/// An inbound stream in memory. Its view is what the reader has yet to meet.
pub struct Source {
    script: Vec<Item>,
    pos: usize,
}

impl View for Source {
    type V = Seq<Item>;

    closed spec fn view(&self) -> Seq<Item> {
        self.script@.skip(self.cursor_spec() as int)
    }
}

impl Source {
    /// Where in the script the reader stands; never past its end.
    spec fn cursor_spec(&self) -> usize {
        if self.pos <= self.script.len() {
            self.pos
        } else {
            self.script.len()
        }
    }

    #[verifier::when_used_as_spec(cursor_spec)]
    fn cursor(&self) -> (at: usize)
        ensures
            at == self.cursor_spec(),
    {
        if self.pos <= self.script.len() {
            self.pos
        } else {
            self.script.len()
        }
    }

    /// A stream that has ended and holds nothing.
    pub fn new() -> (source: Source)
        ensures
            source@ == Seq::<Item>::empty(),
    {
        let source = Source { script: Vec::new(), pos: 0 };
        assert(source@ =~= Seq::<Item>::empty());
        source
    }

    /// Puts `bytes` at the end of the stream.
    pub fn feed(&mut self, bytes: &[u8])
        ensures
            final(self)@ == old(self)@ + script_of(bytes@),
    {
        let ghost before = self@;
        self.pos = self.cursor();
        let mut i: usize = 0;
        while i < bytes.len()
            invariant
                i <= bytes.len(),
                self.pos == old(self).cursor(),
                self.script@ == old(self).script@ + script_of(bytes@.take(i as int)),
            decreases bytes.len() - i,
        {
            self.script.push(Item::Byte(bytes[i]));
            i += 1;
            assert(self.script@ =~= old(self).script@ + script_of(bytes@.take(i as int)));
        }
        assert(bytes@.take(i as int) =~= bytes@);
        assert(self@ =~= before + script_of(bytes@));
    }

    /// Puts a fault at the end of the stream: the read that reaches it fails.
    pub fn inject_fault(&mut self)
        ensures
            final(self)@ == old(self)@.push(Item::Fault),
    {
        let ghost before = self@;
        self.pos = self.cursor();
        self.script.push(Item::Fault);
        assert(self@ =~= before.push(Item::Fault));
    }

    /// The number of items, bytes and faults, that the reader has yet to meet.
    pub fn pending(&self) -> (n: usize)
        ensures
            n == self@.len(),
    {
        self.script.len() - self.cursor()
    }

    /// Reads exactly `n` bytes, or fails as the stream dictates.
    pub fn read_exact(&mut self, n: usize) -> (outcome: Result<Vec<u8>, ReadError>)
        ensures
            (outcome_view(outcome), final(self)@) == take_exact(old(self)@, n as nat),
    {
        let ghost items = self@;
        self.pos = self.cursor();
        let mut bytes: Vec<u8> = Vec::new();
        let mut i: usize = 0;
        while i < n
            invariant
                i <= n,
                i <= clean_len(items),
                items == old(self)@,
                self.script@ == old(self).script@,
                self.pos == old(self).cursor() + i,
                self.pos <= self.script.len(),
                bytes@ == bytes_of(items.take(i as int)),
            decreases n - i,
        {
            proof {
                clean_len_bounds(items);
            }
            if self.pos == self.script.len() {
                proof {
                    clean_len_is(items, i as nat);
                    assert(self@ =~= Seq::<Item>::empty());
                }
                return Err(ReadError::UnexpectedEof);
            }
            assert(items[i as int] == self.script@[self.pos as int]);
            match self.script[self.pos] {
                Item::Fault => {
                    self.pos += 1;
                    proof {
                        clean_len_is(items, i as nat);
                        assert(self@ =~= items.skip(i + 1));
                    }
                    return Err(ReadError::Failed);
                },
                Item::Byte(b) => {
                    bytes.push(b);
                    self.pos += 1;
                    i += 1;
                    proof {
                        if clean_len(items) < i {
                            clean_len_is(items, (i - 1) as nat);
                        }
                        assert(bytes@ =~= bytes_of(items.take(i as int)));
                    }
                },
            }
        }
        assert(self@ =~= items.skip(n as int));
        Ok(bytes)
    }
}

} // verus!
