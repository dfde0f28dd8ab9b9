//! Reading the first satoshi out of an input's packed satoshi ranges.
//!
//! A range is packed into eleven bytes: read as one little-endian integer,
//! its low 51 bits are the ordinal of the range's first satoshi and the bits
//! above them the range's length.

use vstd::prelude::*;

verus! {

/// Number of bytes that one packed range takes.
pub const SAT_RANGE_BYTES: usize = 11;

/// One more than the largest ordinal that a packed range can start at: 2^51.
pub const SAT_RANGE_START_LIMIT: u64 = 0x8_0000_0000_0000;

/// The integer that `bytes` spell, least significant byte first.
pub open spec fn le_value(bytes: Seq<u8>) -> nat
    decreases bytes.len(),
{
    if bytes.len() == 0 {
        0
    } else {
        bytes[0] as nat + 256 * le_value(bytes.drop_first())
    }
}

/// The ordinal that a packed range starts at.
pub open spec fn range_start(chunk: Seq<u8>) -> nat {
    le_value(chunk) % (SAT_RANGE_START_LIMIT as nat)
}

/// The satoshi attributed to a transaction: where the first range of its
/// first input starts, and 0 where no such range was supplied.
pub open spec fn first_sat(input_sat_ranges: Option<Vec<&[u8]>>) -> nat {
    match input_sat_ranges {
        Some(ranges) => if ranges@.len() > 0 && ranges@[0]@.len() >= SAT_RANGE_BYTES {
            range_start(ranges@[0]@.subrange(0, SAT_RANGE_BYTES as int))
        } else {
            0
        },
        None => 0,
    }
}

/// Of eleven bytes only the first seven reach the low 51 bits, and of the
/// seventh only its low three bits.
proof fn lemma_range_start_bytes(chunk: Seq<u8>)
    requires
        chunk.len() == SAT_RANGE_BYTES,
    ensures
        range_start(chunk) == chunk[0] + chunk[1] * 0x100 + chunk[2] * 0x1_0000 + chunk[3]
            * 0x100_0000 + chunk[4] * 0x1_0000_0000 + chunk[5] * 0x100_0000_0000 + (chunk[6] % 8)
            * 0x1_0000_0000_0000,
{
    let s1 = chunk.drop_first();
    let s2 = s1.drop_first();
    let s3 = s2.drop_first();
    let s4 = s3.drop_first();
    let s5 = s4.drop_first();
    let s6 = s5.drop_first();
    let s7 = s6.drop_first();
    let high = le_value(s7);
    assert(le_value(s6) == chunk[6] + 256 * high);
    assert(le_value(s5) == chunk[5] + 256 * le_value(s6));
    assert(le_value(s4) == chunk[4] + 256 * le_value(s5));
    assert(le_value(s3) == chunk[3] + 256 * le_value(s4));
    assert(le_value(s2) == chunk[2] + 256 * le_value(s3));
    assert(le_value(s1) == chunk[1] + 256 * le_value(s2));
    assert(le_value(chunk) == chunk[0] + 256 * le_value(s1));
    let low = chunk[0] + chunk[1] * 0x100 + chunk[2] * 0x1_0000 + chunk[3] * 0x100_0000 + chunk[4]
        * 0x1_0000_0000 + chunk[5] * 0x100_0000_0000;
    let top = chunk[6] as int;
    assert(le_value(chunk) == low + top * 0x1_0000_0000_0000 + high * 0x100_0000_0000_0000);
    assert(top == (top / 8) * 8 + top % 8);
    let carried = top / 8 + high * 32;
    let kept = low + (top % 8) * 0x1_0000_0000_0000;
    assert(le_value(chunk) == carried * 0x8_0000_0000_0000 + kept);
    assert(0 <= kept < 0x8_0000_0000_0000);
    assert((carried * 0x8_0000_0000_0000 + kept) % 0x8_0000_0000_0000 == kept) by {
        vstd::arithmetic::div_mod::lemma_fundamental_div_mod_converse(
            carried * 0x8_0000_0000_0000 + kept,
            0x8_0000_0000_0000,
            carried,
            kept,
        );
    }
}

/// Decodes where a packed range starts.
pub fn sat_range_start(chunk: &[u8; 11]) -> (start: u64)
    ensures
        start == range_start(chunk@),
        start < SAT_RANGE_START_LIMIT,
{
    proof {
        lemma_range_start_bytes(chunk@);
    }
    let top: u64 = (chunk[6] % 8) as u64;
    chunk[0] as u64 + chunk[1] as u64 * 0x100 + chunk[2] as u64 * 0x1_0000 + chunk[3] as u64
        * 0x100_0000 + chunk[4] as u64 * 0x1_0000_0000 + chunk[5] as u64 * 0x100_0000_0000 + top
        * 0x1_0000_0000_0000
}

/// Finds the satoshi attributed to a transaction. Ranges that were not
/// supplied, an empty list, and a first input with fewer than eleven bytes of
/// ranges all give 0.
pub fn attributed_sat(input_sat_ranges: &Option<Vec<&[u8]>>) -> (sat: u64)
    ensures
        sat == first_sat(*input_sat_ranges),
{
    match input_sat_ranges {
        Some(ranges) => {
            if ranges.len() == 0 {
                return 0;
            }
            let first: &[u8] = ranges[0];
            if first.len() < SAT_RANGE_BYTES {
                return 0;
            }
            let chunk: [u8; 11] = [
                first[0],
                first[1],
                first[2],
                first[3],
                first[4],
                first[5],
                first[6],
                first[7],
                first[8],
                first[9],
                first[10],
            ];
            assert(chunk@ =~= first@.subrange(0, SAT_RANGE_BYTES as int));
            sat_range_start(&chunk)
        },
        None => 0,
    }
}

} // verus!
