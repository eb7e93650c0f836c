//! The framing of a cached item: the time it was stored, followed by its
//! serialized bytes, and the rule that decides when it has expired.
use vstd::arithmetic::div_mod::{
    lemma_div_by_multiple_is_strongly_ordered, lemma_div_denominator, lemma_fundamental_div_mod,
    lemma_small_mod,
};
use vstd::prelude::*;

verus! {

/// Seconds in a day.
pub const SECONDS_PER_DAY: u64 = 86400;

/// An item stored at `inserted_at` has expired at `now` when at least
/// `ttl_days` days have passed (so a time to live of zero days expires at
/// once). A clock that went backwards counts as no time passed.
pub open spec fn spec_is_expired(inserted_at: u64, now: u64, ttl_days: u8) -> bool {
    let elapsed: int = if now >= inserted_at {
        now - inserted_at
    } else {
        0
    };
    elapsed >= ttl_days * 86400
}

/// Whether an item stored at `inserted_at` has expired at `now`.
pub fn is_expired(inserted_at: u64, now: u64, ttl_days: u8) -> (r: bool)
    ensures
        r == spec_is_expired(inserted_at, now, ttl_days),
{
    let elapsed: u64 = if now >= inserted_at {
        now - inserted_at
    } else {
        0
    };
    let ttl_secs: u64 = (ttl_days as u64) * SECONDS_PER_DAY;
    elapsed >= ttl_secs
}

/// The little-endian value of eight bytes.
pub open spec fn le_value(b: Seq<u8>) -> int {
    b[0] + 256 * (b[1] + 256 * (b[2] + 256 * (b[3] + 256 * (b[4] + 256 * (b[5] + 256 * (b[6]
        + 256 * b[7]))))))
}

/// The framed bytes of an entry: the eight little-endian bytes of the time,
/// then the payload.
pub open spec fn spec_entry_bytes(inserted_at: u64, payload: Seq<u8>) -> Seq<u8> {
    seq![
        (inserted_at % 256) as u8,
        ((inserted_at / 256) % 256) as u8,
        ((inserted_at / 65536) % 256) as u8,
        ((inserted_at / 16777216) % 256) as u8,
        ((inserted_at / 4294967296) % 256) as u8,
        ((inserted_at / 1099511627776) % 256) as u8,
        ((inserted_at / 281474976710656) % 256) as u8,
        ((inserted_at / 72057594037927936) % 256) as u8,
    ] + payload
}

/// The time and payload read back from framed bytes; nothing when there are
/// fewer than eight bytes.
pub open spec fn spec_decoded_entry(bytes: Seq<u8>) -> Option<(int, Seq<u8>)> {
    if bytes.len() < 8 {
        None
    } else {
        Some((le_value(bytes.subrange(0, 8)), bytes.subrange(8, bytes.len() as int)))
    }
}

/// Frames `payload` with the time it was stored.
pub fn encode_entry(inserted_at: u64, payload: &Vec<u8>) -> (r: Vec<u8>)
    ensures
        r@ == spec_entry_bytes(inserted_at, payload@),
{
    let mut r: Vec<u8> = Vec::new();
    r.push((inserted_at % 256) as u8);
    r.push(((inserted_at / 256) % 256) as u8);
    r.push(((inserted_at / 65536) % 256) as u8);
    r.push(((inserted_at / 16777216) % 256) as u8);
    r.push(((inserted_at / 4294967296) % 256) as u8);
    r.push(((inserted_at / 1099511627776) % 256) as u8);
    r.push(((inserted_at / 281474976710656) % 256) as u8);
    r.push(((inserted_at / 72057594037927936) % 256) as u8);
    let n = payload.len();
    for i in 0..n
        invariant
            n == payload.len(),
            r@ == spec_entry_bytes(inserted_at, payload@.take(i as int)),
    {
        r.push(payload[i]);
        proof {
            assert(payload@.take(i + 1) =~= payload@.take(i as int).push(payload@[i as int]));
            assert(r@ =~= spec_entry_bytes(inserted_at, payload@.take(i + 1)));
        }
    }
    assert(payload@.take(n as int) =~= payload@);
    r
}

/// Reads the time and the payload back from framed bytes.
pub fn decode_entry(bytes: &Vec<u8>) -> (r: Option<(u64, Vec<u8>)>)
    ensures
        match r {
            Some((t, p)) => spec_decoded_entry(bytes@) == Some((t as int, p@)),
            None => spec_decoded_entry(bytes@) is None,
        },
{
    if bytes.len() < 8 {
        return None;
    }
    let b0 = bytes[0] as u64;
    let b1 = bytes[1] as u64;
    let b2 = bytes[2] as u64;
    let b3 = bytes[3] as u64;
    let b4 = bytes[4] as u64;
    let b5 = bytes[5] as u64;
    let b6 = bytes[6] as u64;
    let b7 = bytes[7] as u64;
    let t: u64 = b0 + 256 * (b1 + 256 * (b2 + 256 * (b3 + 256 * (b4 + 256 * (b5 + 256 * (b6
        + 256 * b7))))));
    let mut p: Vec<u8> = Vec::new();
    let n = bytes.len();
    for i in 8..n
        invariant
            n == bytes.len(),
            8 <= n,
            p@ == bytes@.subrange(8, i as int),
    {
        p.push(bytes[i]);
        proof {
            assert(p@ =~= bytes@.subrange(8, i + 1));
        }
    }
    proof {
        assert(bytes@.subrange(0, 8)[0] == b0);
    }
    Some((t, p))
}

/// Framing then reading back gives the stored time and payload.
pub proof fn lemma_entry_roundtrip(inserted_at: u64, payload: Seq<u8>)
    ensures
        spec_decoded_entry(spec_entry_bytes(inserted_at, payload)) == Some(
            (inserted_at as int, payload),
        ),
{
    let b = spec_entry_bytes(inserted_at, payload);
    assert(b.subrange(8, b.len() as int) =~= payload);
    let h = b.subrange(0, 8);
    let t = inserted_at as int;
    let q1 = t / 256;
    let q2 = q1 / 256;
    let q3 = q2 / 256;
    let q4 = q3 / 256;
    let q5 = q4 / 256;
    let q6 = q5 / 256;
    let q7 = q6 / 256;
    lemma_div_denominator(t, 256, 256);
    lemma_div_denominator(t, 65536, 256);
    lemma_div_denominator(t, 16777216, 256);
    lemma_div_denominator(t, 4294967296, 256);
    lemma_div_denominator(t, 1099511627776, 256);
    lemma_div_denominator(t, 281474976710656, 256);
    assert(q2 == t / 65536);
    assert(q3 == t / 16777216);
    assert(q4 == t / 4294967296);
    assert(q5 == t / 1099511627776);
    assert(q6 == t / 281474976710656);
    assert(q7 == t / 72057594037927936);
    lemma_fundamental_div_mod(t, 256);
    lemma_fundamental_div_mod(q1, 256);
    lemma_fundamental_div_mod(q2, 256);
    lemma_fundamental_div_mod(q3, 256);
    lemma_fundamental_div_mod(q4, 256);
    lemma_fundamental_div_mod(q5, 256);
    lemma_fundamental_div_mod(q6, 256);
    lemma_fundamental_div_mod(q7, 256);
    assert(q7 < 256) by {
        lemma_div_by_multiple_is_strongly_ordered(t, 18446744073709551616, 256, 72057594037927936);
    }
    assert(q7 % 256 == q7) by {
        lemma_small_mod(q7 as nat, 256);
    }
    assert(le_value(h) == t);
}

/// With a time to live of zero days an item is expired as soon as it is
/// stored.
pub proof fn lemma_zero_ttl_expires_at_once(inserted_at: u64, now: u64)
    ensures
        spec_is_expired(inserted_at, now, 0),
{
}

/// Expiry is permanent: an item expired at some time is expired at every
/// later time.
pub proof fn lemma_expiry_is_permanent(inserted_at: u64, now: u64, later: u64, ttl_days: u8)
    requires
        now <= later,
        spec_is_expired(inserted_at, now, ttl_days),
    ensures
        spec_is_expired(inserted_at, later, ttl_days),
{
}

} // verus!
