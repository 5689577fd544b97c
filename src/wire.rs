use vstd::prelude::*;

verus! {

/// The eight bytes of `v`, least significant first.
pub open spec fn le_bytes(v: u64) -> Seq<u8> {
    seq![
        (v % 0x100) as u8,
        (v / 0x100 % 0x100) as u8,
        (v / 0x1_0000 % 0x100) as u8,
        (v / 0x100_0000 % 0x100) as u8,
        (v / 0x1_0000_0000 % 0x100) as u8,
        (v / 0x100_0000_0000 % 0x100) as u8,
        (v / 0x1_0000_0000_0000 % 0x100) as u8,
        (v / 0x100_0000_0000_0000 % 0x100) as u8,
    ]
}

/// The little-endian encoding of a run of 64-bit words, word after word.
pub open spec fn encode_words(s: Seq<u64>) -> Seq<u8>
    decreases s.len(),
{
    if s.len() == 0 {
        Seq::empty()
    } else {
        encode_words(s.drop_last()) + le_bytes(s.last())
    }
}

/// Relies on byteorder's `LittleEndian::write_u64`, which writes the eight bytes
/// of `v` into a buffer of eight bytes, least significant first.
#[verifier::external_body]
fn u64_to_le_bytes(v: u64) -> (r: [u8; 8])
    ensures
        r@ == le_bytes(v),
{
    let mut buf = [0u8; 8];
    <byteorder::LittleEndian as byteorder::ByteOrder>::write_u64(&mut buf, v);
    buf
}

/// The payload of a chunk as sent on the wire: each element's 64-bit pattern
/// in little-endian byte order, in element order.
pub fn encode_chunk(values: &Vec<u64>) -> (r: Vec<u8>)
    ensures
        r@ == encode_words(values@),
        r@.len() == 8 * values@.len(),
{
    let mut out: Vec<u8> = Vec::new();
    let n = values.len();
    let mut i: usize = 0;
    while i < n
        invariant
            n == values@.len(),
            i <= n,
            out@ == encode_words(values@.subrange(0, i as int)),
            out@.len() == 8 * i,
        decreases n - i,
    {
        let bytes = u64_to_le_bytes(values[i]);
        let ghost before = out@;
        let mut j: usize = 0;
        while j < 8
            invariant
                j <= 8,
                bytes@ == le_bytes(values@[i as int]),
                out@ == before + bytes@.subrange(0, j as int),
            decreases 8 - j,
        {
            out.push(bytes[j]);
            assert(bytes@.subrange(0, j + 1) =~= bytes@.subrange(0, j as int).push(bytes@[j as int]));
            j = j + 1;
        }
        assert(bytes@.subrange(0, 8) =~= bytes@);
        assert(values@.subrange(0, i + 1).drop_last() =~= values@.subrange(0, i as int));
        i = i + 1;
    }
    assert(values@.subrange(0, n as int) =~= values@);
    out
}

} // verus!
