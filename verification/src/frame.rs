//! The wire format: a four-byte length prefix followed by the payload.

use vstd::prelude::*;

verus! {

/// Number of bytes in a length prefix.
pub const HEADER_LEN: usize = 4;

/// The order in which the four bytes of a length prefix are laid out.
///
/// Native messaging uses the byte order of the machine the host runs on, so
/// the order is a value that every codec function takes.
#[derive(Clone, Copy, PartialEq, Eq, Debug, Structural)]
pub enum ByteOrder {
    /// Least significant byte first.
    Little,
    /// Most significant byte first.
    Big,
}

/// The four bytes of `n`, least significant first.
pub open spec fn le_bytes(n: u32) -> Seq<u8> {
    seq![
        (n % 256) as u8,
        (n / 256 % 256) as u8,
        (n / 65536 % 256) as u8,
        (n / 16777216) as u8,
    ]
}

/// The number whose bytes, least significant first, are `bytes[0..4]`.
pub open spec fn le_value(bytes: Seq<u8>) -> int
    recommends
        bytes.len() == 4,
{
    bytes[0] + 256 * bytes[1] + 65536 * bytes[2] + 16777216 * bytes[3]
}

/// The length prefix that announces `n` payload bytes.
pub open spec fn header(order: ByteOrder, n: u32) -> Seq<u8> {
    match order {
        ByteOrder::Little => le_bytes(n),
        ByteOrder::Big => le_bytes(n).reverse(),
    }
}

/// The payload length that a four-byte prefix announces.
pub open spec fn header_value(order: ByteOrder, bytes: Seq<u8>) -> int
    recommends
        bytes.len() == 4,
{
    match order {
        ByteOrder::Little => le_value(bytes),
        ByteOrder::Big => le_value(bytes.reverse()),
    }
}

/// Decoding a prefix gives back the length it was made from.
pub proof fn header_value_of_header(order: ByteOrder, n: u32)
    ensures
        header(order, n).len() == 4,
        header_value(order, header(order, n)) == n,
{
    let b = le_bytes(n);
    assert(b.reverse().reverse() =~= b);
    assert(b[0] + 256 * b[1] + 65536 * b[2] + 16777216 * b[3] == n) by {
        let q1 = n / 256;
        let q2 = n / 65536;
        let q3 = n / 16777216;
        assert(n == 256 * q1 + n % 256);
        assert(q1 / 256 == q2 && q2 / 256 == q3);
        assert(q1 == 256 * q2 + q1 % 256);
        assert(q2 == 256 * q3 + q2 % 256);
    }
}

/// Four digits in base 256 are the digits of the number they make up.
proof fn digits_of_value(b0: u8, b1: u8, b2: u8, b3: u8)
    ensures
        ({
            let v = b0 + 256 * b1 + 65536 * b2 + 16777216 * b3;
            &&& 0 <= v <= u32::MAX
            &&& v % 256 == b0
            &&& v / 256 % 256 == b1
            &&& v / 65536 % 256 == b2
            &&& v / 16777216 == b3
        }),
{
    let v = b0 + 256 * b1 + 65536 * b2 + 16777216 * b3;
    let v1 = b1 + 256 * b2 + 65536 * b3;
    let v2 = b2 + 256 * b3;
    assert(v == b0 + 256 * v1);
    assert(v / 256 == v1 && v % 256 == b0);
    assert(v == b0 + 256 * b1 + 65536 * v2);
    assert(v / 65536 == v2);
    assert(v2 % 256 == b2);
    assert(v1 % 256 == b1);
    assert(v / 16777216 == b3);
}

/// Every four bytes are the prefix of exactly the length they announce.
pub proof fn header_of_header_value(order: ByteOrder, bytes: Seq<u8>)
    requires
        bytes.len() == 4,
    ensures
        0 <= header_value(order, bytes) <= u32::MAX,
        header(order, header_value(order, bytes) as u32) == bytes,
{
    match order {
        ByteOrder::Little => {
            digits_of_value(bytes[0], bytes[1], bytes[2], bytes[3]);
            assert(le_bytes(le_value(bytes) as u32) =~= bytes);
        },
        ByteOrder::Big => {
            let r = bytes.reverse();
            digits_of_value(r[0], r[1], r[2], r[3]);
            assert(le_bytes(le_value(r) as u32) =~= r);
            assert(r.reverse() =~= bytes);
        },
    }
}

/// Writes the length prefix for `n` payload bytes.
pub fn encode_length(order: ByteOrder, n: u32) -> (bytes: [u8; 4])
    ensures
        bytes@ == header(order, n),
{
    let b0: u8 = (n % 256) as u8;
    let b1: u8 = (n / 256 % 256) as u8;
    let b2: u8 = (n / 65536 % 256) as u8;
    let b3: u8 = (n / 16777216) as u8;
    let bytes: [u8; 4] = match order {
        ByteOrder::Little => [b0, b1, b2, b3],
        ByteOrder::Big => [b3, b2, b1, b0],
    };
    assert(bytes@ =~= header(order, n));
    bytes
}

/// Reads the payload length out of a length prefix.
pub fn decode_length(order: ByteOrder, bytes: [u8; 4]) -> (n: u32)
    ensures
        n == header_value(order, bytes@),
        header(order, n) == bytes@,
{
    proof {
        header_of_header_value(order, bytes@);
    }
    let b0: u32 = bytes[0] as u32;
    let b1: u32 = bytes[1] as u32;
    let b2: u32 = bytes[2] as u32;
    let b3: u32 = bytes[3] as u32;
    match order {
        ByteOrder::Little => b0 + 256 * b1 + 65536 * b2 + 16777216 * b3,
        ByteOrder::Big => b3 + 256 * b2 + 65536 * b1 + 16777216 * b0,
    }
}

/// The length that the prefix of a `len`-byte payload announces: `len` itself
/// while it fits in 32 bits, and its low 32 bits beyond that.
pub open spec fn wire_length(len: nat) -> u32 {
    (len % 0x1_0000_0000) as u32
}

/// The frame that carries `message`: its length prefix, then its bytes.
pub open spec fn frame(order: ByteOrder, message: Seq<u8>) -> Seq<u8> {
    header(order, wire_length(message.len())) + message
}

/// `u32::to_ne_bytes`: the four bytes of `n` as the machine keeps them in
/// memory. The claim is only that they are the bytes of `n` in one of the two
/// orders; which one depends on the machine.
#[verifier::external_body]
fn native_bytes(n: u32) -> (bytes: [u8; 4])
    ensures
        bytes@ == header(ByteOrder::Little, n) || bytes@ == header(ByteOrder::Big, n),
{
    n.to_ne_bytes()
}

/// Tells which order the four bytes of the number one are in.
pub fn order_of_one(bytes: [u8; 4]) -> (order: ByteOrder)
    ensures
        order == (if bytes@[0] == 1 { ByteOrder::Little } else { ByteOrder::Big }),
        bytes@ == header(ByteOrder::Little, 1) ==> order == ByteOrder::Little,
        bytes@ == header(ByteOrder::Big, 1) ==> order == ByteOrder::Big,
{
    if bytes[0] == 1 {
        ByteOrder::Little
    } else {
        ByteOrder::Big
    }
}

impl ByteOrder {
    /// The byte order of the machine this runs on, found by looking at how it
    /// lays out the number one.
    pub fn native() -> (order: ByteOrder) {
        order_of_one(native_bytes(1))
    }
}

} // verus!
