use vstd::prelude::*;

verus! {

/// The `n` low-order bytes of `v`, least significant first.
pub open spec fn le_bytes(v: nat, n: nat) -> Seq<u8>
    decreases n,
{
    if n == 0 {
        Seq::empty()
    } else {
        seq![(v % 256) as u8] + le_bytes(v / 256, (n - 1) as nat)
    }
}

pub proof fn lemma_le_bytes_len(v: nat, n: nat)
    ensures
        le_bytes(v, n).len() == n,
    decreases n,
{
    if n > 0 {
        lemma_le_bytes_len(v / 256, (n - 1) as nat);
    }
}

/// Little-endian encoding of a 16-bit value.
pub open spec fn u16_le(v: u16) -> Seq<u8> {
    le_bytes(v as nat, 2)
}

/// Little-endian encoding of a 32-bit value.
pub open spec fn u32_le(v: u32) -> Seq<u8> {
    le_bytes(v as nat, 4)
}

/// Little-endian encoding of a 64-bit value.
pub open spec fn u64_le(v: u64) -> Seq<u8> {
    le_bytes(v as nat, 8)
}

fn push_le(buffer: &mut Vec<u8>, value: u64, n: usize)
    ensures
        final(buffer)@ == old(buffer)@ + le_bytes(value as nat, n as nat),
    decreases n,
{
    if n > 0 {
        buffer.push((value % 256) as u8);
        let ghost mid = buffer@;
        push_le(buffer, value / 256, n - 1);
        assert(final(buffer)@ =~= old(buffer)@ + le_bytes(value as nat, n as nat));
    } else {
        assert(final(buffer)@ =~= old(buffer)@ + le_bytes(value as nat, n as nat));
    }
}

/// A single byte as a sequence.
pub open spec fn b8(v: u8) -> Seq<u8> {
    seq![v]
}

/// Appends one byte.
pub fn push_u8(buffer: &mut Vec<u8>, value: u8)
    ensures
        final(buffer)@ == old(buffer)@ + b8(value),
{
    buffer.push(value);
    assert(buffer@ =~= old(buffer)@ + b8(value));
}

/// Appends a 16-bit value in little-endian order.
pub fn push_u16(buffer: &mut Vec<u8>, value: u16)
    ensures
        final(buffer)@ == old(buffer)@ + u16_le(value),
{
    push_le(buffer, value as u64, 2);
}

/// Appends a 32-bit value in little-endian order.
pub fn push_u32(buffer: &mut Vec<u8>, value: u32)
    ensures
        final(buffer)@ == old(buffer)@ + u32_le(value),
{
    push_le(buffer, value as u64, 4);
}

/// Appends a 64-bit value in little-endian order.
pub fn push_u64(buffer: &mut Vec<u8>, value: u64)
    ensures
        final(buffer)@ == old(buffer)@ + u64_le(value),
{
    push_le(buffer, value, 8);
}

/// Appends every byte of `bytes`.
pub fn extend_bytes(buffer: &mut Vec<u8>, bytes: &[u8])
    ensures
        final(buffer)@ == old(buffer)@ + bytes@,
{
    let ghost start = buffer@;
    let mut i: usize = 0;
    while i < bytes.len()
        invariant
            i <= bytes@.len(),
            buffer@ == start + bytes@.take(i as int),
        decreases bytes@.len() - i,
    {
        buffer.push(bytes[i]);
        i = i + 1;
        assert(buffer@ =~= start + bytes@.take(i as int));
    }
    assert(bytes@.take(i as int) =~= bytes@);
}

/// The lower-case hexadecimal digit for a nibble.
pub open spec fn hex_digit(n: int) -> char {
    if n < 10 {
        (48 + n) as char
    } else {
        (87 + n) as char
    }
}

/// Lower-case hexadecimal rendering, two digits per byte.
pub open spec fn hex_of(bytes: Seq<u8>) -> Seq<char>
    decreases bytes.len(),
{
    if bytes.len() == 0 {
        Seq::empty()
    } else {
        hex_of(bytes.drop_last()) + seq![
            hex_digit(bytes.last() as int / 16),
            hex_digit(bytes.last() as int % 16),
        ]
    }
}

fn hex_digit_str(n: u8) -> (s: &'static str)
    requires
        n < 16,
    ensures
        s@ == seq![hex_digit(n as int)],
{
    match n {
        0 => { proof { reveal_strlit("0"); } "0" },
        1 => { proof { reveal_strlit("1"); } "1" },
        2 => { proof { reveal_strlit("2"); } "2" },
        3 => { proof { reveal_strlit("3"); } "3" },
        4 => { proof { reveal_strlit("4"); } "4" },
        5 => { proof { reveal_strlit("5"); } "5" },
        6 => { proof { reveal_strlit("6"); } "6" },
        7 => { proof { reveal_strlit("7"); } "7" },
        8 => { proof { reveal_strlit("8"); } "8" },
        9 => { proof { reveal_strlit("9"); } "9" },
        10 => { proof { reveal_strlit("a"); } "a" },
        11 => { proof { reveal_strlit("b"); } "b" },
        12 => { proof { reveal_strlit("c"); } "c" },
        13 => { proof { reveal_strlit("d"); } "d" },
        14 => { proof { reveal_strlit("e"); } "e" },
        _ => { proof { reveal_strlit("f"); } "f" },
    }
}

/// Renders `bytes` as lower-case hexadecimal.
pub fn encode_hex(bytes: &[u8]) -> (output: String)
    ensures
        output@ == hex_of(bytes@),
{
    let mut output = String::new();
    let mut i: usize = 0;
    while i < bytes.len()
        invariant
            i <= bytes@.len(),
            output@ == hex_of(bytes@.take(i as int)),
        decreases bytes@.len() - i,
    {
        let byte = bytes[i];
        output.append(hex_digit_str(byte / 16));
        output.append(hex_digit_str(byte % 16));
        i = i + 1;
        assert(bytes@.take(i as int).drop_last() =~= bytes@.take(i - 1));
    }
    assert(bytes@.take(i as int) =~= bytes@);
    output
}

} // verus!
