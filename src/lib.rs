//! Host-side driver for a half-duplex serial bus servo protocol: register
//! model, frame codec, reply validation, transaction decisions and write
//! coalescing.
use vstd::prelude::*;

pub mod command;
pub mod hardware;
pub mod response;
pub mod serial;
pub mod servo;

verus! {

/// Sum of all bytes, as an unbounded integer.
pub open spec fn byte_sum(s: Seq<u8>) -> nat
    decreases s.len(),
{
    if s.len() == 0 {
        0
    } else {
        byte_sum(s.drop_last()) + s.last() as nat
    }
}

/// One's complement of the eight-bit wrapping sum of the bytes.
pub open spec fn checksum(s: Seq<u8>) -> u8 {
    (255 - byte_sum(s) % 256) as u8
}

/// Changing one byte changes the sum by the difference of the two values.
pub proof fn lemma_byte_sum_update(s: Seq<u8>, k: int, v: u8)
    requires
        0 <= k < s.len(),
    ensures
        byte_sum(s.update(k, v)) == byte_sum(s) - s[k] + v,
    decreases s.len(),
{
    let t = s.update(k, v);
    if k == s.len() - 1 {
        assert(t.drop_last() =~= s.drop_last());
    } else {
        assert(t.drop_last() =~= s.drop_last().update(k, v));
        lemma_byte_sum_update(s.drop_last(), k, v);
    }
}

/// Changing any one byte changes the checksum.
pub proof fn lemma_checksum_detects_change(s: Seq<u8>, k: int, v: u8)
    requires
        0 <= k < s.len(),
        v != s[k],
    ensures
        checksum(s.update(k, v)) != checksum(s),
{
    lemma_byte_sum_update(s, k, v);
    let x = byte_sum(s) as int;
    let y = byte_sum(s.update(k, v)) as int;
    let a = s[k] as int;
    let c = v as int;
    assert(x % 256 != y % 256) by (nonlinear_arith)
        requires
            y == x - a + c,
            0 <= a < 256,
            0 <= c < 256,
            a != c,
            x >= 0,
            y >= 0,
    ;
}

/// Frame checksum over `packet`.
pub fn crc(packet: &[u8]) -> (r: u8)
    ensures
        r == checksum(packet@),
{
    let mut sum: u8 = 0;
    let mut i: usize = 0;
    while i < packet.len()
        invariant
            i <= packet.len(),
            sum == byte_sum(packet@.subrange(0, i as int)) % 256,
        decreases packet.len() - i,
    {
        assert(packet@.subrange(0, i + 1).drop_last() == packet@.subrange(0, i as int));
        sum = sum.wrapping_add(packet[i]);
        i += 1;
    }
    assert(packet@.subrange(0, packet.len() as int) == packet@);
    let r = !sum;
    assert(r == 255 - sum) by (bit_vector)
        requires
            r == !sum,
    ;
    r
}

} // verus!
