//! The remaining-length format: seven bits per byte, least significant
//! group first, the high bit of each byte set while more bytes follow.
use vstd::prelude::*;

use crate::error::MqttError;

verus! {

/// The largest value the four-byte remaining-length field can carry.
pub const MAX_REMAINING_LENGTH: u32 = 268_435_455;

/// The encoding of `n`: the low seven bits first, with the continuation
/// flag set on every byte but the last.
pub open spec fn varint(n: nat) -> Seq<u8>
    decreases n,
{
    if n < 128 {
        seq![n as u8]
    } else {
        seq![(n % 128 + 128) as u8] + varint(n / 128)
    }
}

/// Reads one encoded value from the front of `b`, looking at no more than
/// `budget` bytes; gives the value and the number of bytes consumed.
pub open spec fn varint_decode(b: Seq<u8>, budget: nat) -> Option<(nat, nat)>
    decreases budget,
{
    if budget == 0 || b.len() == 0 {
        None
    } else if b[0] < 128 {
        Some((b[0] as nat, 1))
    } else {
        match varint_decode(b.drop_first(), (budget - 1) as nat) {
            Some((v, k)) => Some((((b[0] - 128) + 128 * v) as nat, k + 1)),
            None => None,
        }
    }
}

/// What `decode` yields on `b`.
pub open spec fn decode_result(b: Seq<u8>) -> Result<(u32, usize), MqttError> {
    match varint_decode(b, 4) {
        Some((v, k)) => Ok((v as u32, k as usize)),
        None => Err(MqttError::MalformedLength),
    }
}

/// The encoding takes one byte below 128 and at most four in range.
pub proof fn lemma_varint_len(n: nat)
    ensures
        1 <= varint(n).len(),
        n < 128 ==> varint(n).len() == 1,
        n < 16384 ==> varint(n).len() <= 2,
        n < 2097152 ==> varint(n).len() <= 3,
        n <= MAX_REMAINING_LENGTH ==> varint(n).len() <= 4,
    decreases n,
{
    if n >= 128 {
        lemma_varint_len(n / 128);
    }
}

/// Decoding reads the encoded value off the front of a longer sequence
/// and leaves what follows it alone.
pub proof fn lemma_decode_varint(n: nat, rest: Seq<u8>, budget: nat)
    requires
        varint(n).len() <= budget,
    ensures
        varint_decode(varint(n) + rest, budget) == Some((n, varint(n).len())),
    decreases n,
{
    lemma_varint_len(n);
    if n >= 128 {
        let b = varint(n) + rest;
        assert(b.drop_first() =~= varint(n / 128) + rest);
        lemma_decode_varint(n / 128, rest, (budget - 1) as nat);
    } else {
        assert((varint(n) + rest)[0] == n as u8);
    }
}

/// Decoding the encoding of any value in range gives that value back,
/// and consumes exactly the bytes that were written, one to four of them.
pub proof fn lemma_decode_encode(n: nat)
    requires
        n <= MAX_REMAINING_LENGTH,
    ensures
        1 <= varint(n).len() <= 4,
        decode_result(varint(n)) == Ok::<(u32, usize), MqttError>((n as u32, varint(n).len() as usize)),
{
    lemma_varint_len(n);
    lemma_decode_varint(n, Seq::empty(), 4);
    assert(varint(n) + Seq::<u8>::empty() =~= varint(n));
}

proof fn lemma_decode_bound(b: Seq<u8>, budget: nat)
    ensures
        varint_decode(b, budget) matches Some((v, k)) ==> 1 <= k <= budget && k <= b.len()
            && (k == 1 ==> v < 128) && (k == 2 ==> v < 16384) && (k == 3 ==> v < 2097152)
            && (k == 4 ==> v < 268435456),
    decreases budget,
{
    if budget > 0 && b.len() > 0 && b[0] >= 128 {
        lemma_decode_bound(b.drop_first(), (budget - 1) as nat);
    }
}

/// Encoder and decoder of the remaining-length field.
pub struct VariableLengthEncoder;

impl VariableLengthEncoder {
    /// The encoding of `n`: a single byte `[n]` below 128, and one to four
    /// bytes in all.
    pub fn encode(n: u32) -> (r: Vec<u8>)
        requires
            n <= MAX_REMAINING_LENGTH,
        ensures
            r@ == varint(n as nat),
            1 <= r@.len() <= 4,
            n < 128 ==> r@ == seq![n as u8],
    {
        proof {
            lemma_varint_len(n as nat);
        }
        let mut out: Vec<u8> = Vec::new();
        let mut x: u32 = n;
        loop
            invariant
                out@ + varint(x as nat) == varint(n as nat),
                1 <= varint(n as nat).len() <= 4,
            decreases x,
        {
            if x < 128 {
                out.push(x as u8);
                assert(out@ =~= varint(n as nat));
                return out;
            }
            let low: u8 = (x % 128) as u8;
            let byte: u8 = low | 0x80;
            assert(low < 128 ==> low | 0x80 == low + 128) by (bit_vector);
            proof {
                assert(varint(x as nat) == seq![byte] + varint((x / 128) as nat));
                assert(out@.push(byte) + varint((x / 128) as nat) =~= out@ + varint(x as nat));
            }
            out.push(byte);
            x = x / 128;
        }
    }

    /// Reads one encoded value from the front of `b`: its value and the
    /// number of bytes it took. Fails with `MalformedLength` when no byte
    /// with the continuation flag clear comes within the first four.
    pub fn decode(b: &[u8]) -> (r: Result<(u32, usize), MqttError>)
        ensures
            r == decode_result(b@),
    {
        proof {
            lemma_decode_bound(b@, 4);
            assert(b@.subrange(0, b@.len() as int) =~= b@);
        }
        match Self::decode_from(b, 0, 4) {
            Some((v, k)) => Ok((v, k)),
            None => Err(MqttError::MalformedLength),
        }
    }

    fn decode_from(b: &[u8], i: usize, budget: usize) -> (r: Option<(u32, usize)>)
        requires
            i <= b@.len(),
            budget <= 4,
        ensures
            match varint_decode(b@.subrange(i as int, b@.len() as int), budget as nat) {
                Some((v, k)) => r == Some((v as u32, k as usize)),
                None => r is None,
            },
        decreases budget,
    {
        let ghost rest = b@.subrange(i as int, b@.len() as int);
        proof {
            lemma_decode_bound(rest, budget as nat);
        }
        if budget == 0 || i == b.len() {
            return None;
        }
        let first: u8 = b[i];
        if first < 128 {
            return Some((first as u32, 1));
        }
        proof {
            assert(rest.drop_first() =~= b@.subrange(i + 1, b@.len() as int));
            lemma_decode_bound(rest.drop_first(), (budget - 1) as nat);
        }
        match Self::decode_from(b, i + 1, budget - 1) {
            Some((v, k)) => Some(((first - 128) as u32 + 128 * v, k + 1)),
            None => None,
        }
    }
}

} // verus!
