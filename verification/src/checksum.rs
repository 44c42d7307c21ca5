//! FIX CheckSum (tag 10): the byte sum modulo 256, written as three digits.
use vstd::prelude::*;

verus! {

/// Sum of all bytes of `s`.
pub open spec fn byte_sum(s: Seq<u8>) -> nat
    decreases s.len(),
{
    if s.len() == 0 {
        0
    } else {
        byte_sum(s.drop_last()) + s.last() as nat
    }
}

/// The FIX checksum of `s`: its byte sum modulo 256.
pub open spec fn spec_checksum(s: Seq<u8>) -> u8 {
    (byte_sum(s) % 256) as u8
}

/// The three ASCII digits of `cs`, zero padded.
pub open spec fn spec_checksum_digits(cs: u8) -> Seq<u8> {
    seq![
        (48 + cs / 100) as u8,
        (48 + (cs / 10) % 10) as u8,
        (48 + cs % 10) as u8,
    ]
}

/// Computes the FIX checksum of `data`.
pub fn compute(data: &[u8]) -> (cs: u8)
    ensures
        cs == spec_checksum(data@),
{
    let mut sum: u8 = 0;
    let mut i: usize = 0;
    while i < data.len()
        invariant
            i <= data@.len(),
            sum as nat == byte_sum(data@.take(i as int)) % 256,
        decreases data@.len() - i,
    {
        assert(data@.take(i as int + 1).drop_last() =~= data@.take(i as int));
        sum = sum.wrapping_add(data[i]);
        i = i + 1;
    }
    assert(data@.take(i as int) =~= data@);
    sum
}

/// Formats `cs` as three zero-padded ASCII digits.
pub fn format(cs: u8) -> (digits: [u8; 3])
    ensures
        digits@ == spec_checksum_digits(cs),
{
    let d = [48u8 + cs / 100, 48u8 + (cs / 10) % 10, 48u8 + cs % 10];
    assert(d@ =~= spec_checksum_digits(cs));
    d
}

} // verus!
