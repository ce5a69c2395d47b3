use vstd::prelude::*;

verus! {

/// The bitwise OR of every value in `s` (zero for none).
pub open spec fn or_all_u8(s: Seq<u8>) -> u8
    decreases s.len(),
{
    if s.len() == 0 {
        0
    } else {
        or_all_u8(s.drop_last()) | s.last()
    }
}

proof fn lemma_or_keeps_u8(a: u8, b: u8, c: u8)
    ensures
        (a | b) & b == b,
        a & c == c ==> (a | b) & c == c,
        (a & c == a && b & c == b) ==> (a | b) & c == (a | b),
{
    assert((a | b) & b == b) by (bit_vector);
    assert(a & c == c ==> (a | b) & c == c) by (bit_vector);
    assert((a & c == a && b & c == b) ==> (a | b) & c == (a | b)) by (bit_vector);
}

/// Every value of the list has all its bits set in the OR of the list.
pub proof fn lemma_or_all_covers_u8(s: Seq<u8>, i: int)
    requires
        0 <= i < s.len(),
    ensures
        or_all_u8(s) & s[i] == s[i],
    decreases s.len(),
{
    lemma_or_keeps_u8(or_all_u8(s.drop_last()), s.last(), s[i]);
    if i < s.len() - 1 {
        lemma_or_all_covers_u8(s.drop_last(), i);
    }
}

/// The OR of a list sets no bit outside a mask that holds every value.
pub proof fn lemma_or_all_within_u8(s: Seq<u8>, mask: u8)
    requires
        forall|i: int| 0 <= i < s.len() ==> #[trigger] s[i] & mask == s[i],
    ensures
        or_all_u8(s) & mask == or_all_u8(s),
    decreases s.len(),
{
    if s.len() > 0 {
        assert(s.drop_last().len() == s.len() - 1);
        assert forall|i: int| 0 <= i < s.drop_last().len() implies #[trigger] s.drop_last()[i] & mask == s.drop_last()[i] by {
            assert(s.drop_last()[i] == s[i]);
        }
        lemma_or_all_within_u8(s.drop_last(), mask);
        lemma_or_keeps_u8(or_all_u8(s.drop_last()), s.last(), mask);
    } else {
        assert(0u8 & mask == 0u8) by (bit_vector);
    }
}

/// The bitwise OR of every value in `s` (zero for none).
pub open spec fn or_all_u16(s: Seq<u16>) -> u16
    decreases s.len(),
{
    if s.len() == 0 {
        0
    } else {
        or_all_u16(s.drop_last()) | s.last()
    }
}

proof fn lemma_or_keeps_u16(a: u16, b: u16, c: u16)
    ensures
        (a | b) & b == b,
        a & c == c ==> (a | b) & c == c,
        (a & c == a && b & c == b) ==> (a | b) & c == (a | b),
{
    assert((a | b) & b == b) by (bit_vector);
    assert(a & c == c ==> (a | b) & c == c) by (bit_vector);
    assert((a & c == a && b & c == b) ==> (a | b) & c == (a | b)) by (bit_vector);
}

/// Every value of the list has all its bits set in the OR of the list.
pub proof fn lemma_or_all_covers_u16(s: Seq<u16>, i: int)
    requires
        0 <= i < s.len(),
    ensures
        or_all_u16(s) & s[i] == s[i],
    decreases s.len(),
{
    lemma_or_keeps_u16(or_all_u16(s.drop_last()), s.last(), s[i]);
    if i < s.len() - 1 {
        lemma_or_all_covers_u16(s.drop_last(), i);
    }
}

/// The OR of a list sets no bit outside a mask that holds every value.
pub proof fn lemma_or_all_within_u16(s: Seq<u16>, mask: u16)
    requires
        forall|i: int| 0 <= i < s.len() ==> #[trigger] s[i] & mask == s[i],
    ensures
        or_all_u16(s) & mask == or_all_u16(s),
    decreases s.len(),
{
    if s.len() > 0 {
        assert(s.drop_last().len() == s.len() - 1);
        assert forall|i: int| 0 <= i < s.drop_last().len() implies #[trigger] s.drop_last()[i] & mask == s.drop_last()[i] by {
            assert(s.drop_last()[i] == s[i]);
        }
        lemma_or_all_within_u16(s.drop_last(), mask);
        lemma_or_keeps_u16(or_all_u16(s.drop_last()), s.last(), mask);
    } else {
        assert(0u16 & mask == 0u16) by (bit_vector);
    }
}

/// The bitwise OR of every value in `s` (zero for none).
pub open spec fn or_all_u32(s: Seq<u32>) -> u32
    decreases s.len(),
{
    if s.len() == 0 {
        0
    } else {
        or_all_u32(s.drop_last()) | s.last()
    }
}

proof fn lemma_or_keeps_u32(a: u32, b: u32, c: u32)
    ensures
        (a | b) & b == b,
        a & c == c ==> (a | b) & c == c,
        (a & c == a && b & c == b) ==> (a | b) & c == (a | b),
{
    assert((a | b) & b == b) by (bit_vector);
    assert(a & c == c ==> (a | b) & c == c) by (bit_vector);
    assert((a & c == a && b & c == b) ==> (a | b) & c == (a | b)) by (bit_vector);
}

/// Every value of the list has all its bits set in the OR of the list.
pub proof fn lemma_or_all_covers_u32(s: Seq<u32>, i: int)
    requires
        0 <= i < s.len(),
    ensures
        or_all_u32(s) & s[i] == s[i],
    decreases s.len(),
{
    lemma_or_keeps_u32(or_all_u32(s.drop_last()), s.last(), s[i]);
    if i < s.len() - 1 {
        lemma_or_all_covers_u32(s.drop_last(), i);
    }
}

/// The OR of a list sets no bit outside a mask that holds every value.
pub proof fn lemma_or_all_within_u32(s: Seq<u32>, mask: u32)
    requires
        forall|i: int| 0 <= i < s.len() ==> #[trigger] s[i] & mask == s[i],
    ensures
        or_all_u32(s) & mask == or_all_u32(s),
    decreases s.len(),
{
    if s.len() > 0 {
        assert(s.drop_last().len() == s.len() - 1);
        assert forall|i: int| 0 <= i < s.drop_last().len() implies #[trigger] s.drop_last()[i] & mask == s.drop_last()[i] by {
            assert(s.drop_last()[i] == s[i]);
        }
        lemma_or_all_within_u32(s.drop_last(), mask);
        lemma_or_keeps_u32(or_all_u32(s.drop_last()), s.last(), mask);
    } else {
        assert(0u32 & mask == 0u32) by (bit_vector);
    }
}

proof fn lemma_or_facts_u8(a: u8, b: u8, c: u8)
    ensures
        (a | b) | b == a | b,
        (a | b) | c == (a | c) | b,
        (a | c == a) ==> (a | b) | c == a | b,
        a | (b | c) == (a | b) | c,
        a | b == b | a,
        a | 0 == a,
{
    assert((a | b) | b == a | b) by (bit_vector);
    assert((a | b) | c == (a | c) | b) by (bit_vector);
    assert((a | c == a) ==> (a | b) | c == a | b) by (bit_vector);
    assert(a | (b | c) == (a | b) | c) by (bit_vector);
    assert(a | b == b | a) by (bit_vector);
    assert(a | 0 == a) by (bit_vector);
}

proof fn lemma_or_all_absorbs_u8(s: Seq<u8>, e: u8)
    requires
        s.contains(e),
    ensures
        or_all_u8(s) | e == or_all_u8(s),
    decreases s.len(),
{
    let rest = s.drop_last();
    lemma_or_facts_u8(or_all_u8(rest), s.last(), e);
    if s.last() != e {
        let i = choose|i: int| 0 <= i < s.len() && s[i] == e;
        assert(rest[i] == e);
        lemma_or_all_absorbs_u8(rest, e);
    }
}

proof fn lemma_or_all_absorbs_all_u8(s: Seq<u8>, t: Seq<u8>)
    requires
        forall|i: int| 0 <= i < t.len() ==> s.contains(#[trigger] t[i]),
    ensures
        or_all_u8(s) | or_all_u8(t) == or_all_u8(s),
    decreases t.len(),
{
    if t.len() == 0 {
        lemma_or_facts_u8(or_all_u8(s), 0, 0);
    } else {
        let rest = t.drop_last();
        assert forall|i: int| 0 <= i < rest.len() implies s.contains(#[trigger] rest[i]) by {
            assert(rest[i] == t[i]);
        }
        lemma_or_all_absorbs_all_u8(s, rest);
        assert(s.contains(t[t.len() - 1]));
        lemma_or_all_absorbs_u8(s, t.last());
        lemma_or_facts_u8(or_all_u8(s), or_all_u8(rest), t.last());
    }
}

/// Two lists that hold the same values, in any order and any number of
/// times, have the same OR.
pub proof fn lemma_or_all_same_values_u8(s: Seq<u8>, t: Seq<u8>)
    requires
        forall|i: int| 0 <= i < t.len() ==> s.contains(#[trigger] t[i]),
        forall|i: int| 0 <= i < s.len() ==> t.contains(#[trigger] s[i]),
    ensures
        or_all_u8(s) == or_all_u8(t),
{
    lemma_or_all_absorbs_all_u8(s, t);
    lemma_or_all_absorbs_all_u8(t, s);
    lemma_or_facts_u8(or_all_u8(s), or_all_u8(t), 0);
}

proof fn lemma_or_facts_u16(a: u16, b: u16, c: u16)
    ensures
        (a | b) | b == a | b,
        (a | b) | c == (a | c) | b,
        (a | c == a) ==> (a | b) | c == a | b,
        a | (b | c) == (a | b) | c,
        a | b == b | a,
        a | 0 == a,
{
    assert((a | b) | b == a | b) by (bit_vector);
    assert((a | b) | c == (a | c) | b) by (bit_vector);
    assert((a | c == a) ==> (a | b) | c == a | b) by (bit_vector);
    assert(a | (b | c) == (a | b) | c) by (bit_vector);
    assert(a | b == b | a) by (bit_vector);
    assert(a | 0 == a) by (bit_vector);
}

proof fn lemma_or_all_absorbs_u16(s: Seq<u16>, e: u16)
    requires
        s.contains(e),
    ensures
        or_all_u16(s) | e == or_all_u16(s),
    decreases s.len(),
{
    let rest = s.drop_last();
    lemma_or_facts_u16(or_all_u16(rest), s.last(), e);
    if s.last() != e {
        let i = choose|i: int| 0 <= i < s.len() && s[i] == e;
        assert(rest[i] == e);
        lemma_or_all_absorbs_u16(rest, e);
    }
}

proof fn lemma_or_all_absorbs_all_u16(s: Seq<u16>, t: Seq<u16>)
    requires
        forall|i: int| 0 <= i < t.len() ==> s.contains(#[trigger] t[i]),
    ensures
        or_all_u16(s) | or_all_u16(t) == or_all_u16(s),
    decreases t.len(),
{
    if t.len() == 0 {
        lemma_or_facts_u16(or_all_u16(s), 0, 0);
    } else {
        let rest = t.drop_last();
        assert forall|i: int| 0 <= i < rest.len() implies s.contains(#[trigger] rest[i]) by {
            assert(rest[i] == t[i]);
        }
        lemma_or_all_absorbs_all_u16(s, rest);
        assert(s.contains(t[t.len() - 1]));
        lemma_or_all_absorbs_u16(s, t.last());
        lemma_or_facts_u16(or_all_u16(s), or_all_u16(rest), t.last());
    }
}

/// Two lists that hold the same values, in any order and any number of
/// times, have the same OR.
pub proof fn lemma_or_all_same_values_u16(s: Seq<u16>, t: Seq<u16>)
    requires
        forall|i: int| 0 <= i < t.len() ==> s.contains(#[trigger] t[i]),
        forall|i: int| 0 <= i < s.len() ==> t.contains(#[trigger] s[i]),
    ensures
        or_all_u16(s) == or_all_u16(t),
{
    lemma_or_all_absorbs_all_u16(s, t);
    lemma_or_all_absorbs_all_u16(t, s);
    lemma_or_facts_u16(or_all_u16(s), or_all_u16(t), 0);
}

proof fn lemma_or_facts_u32(a: u32, b: u32, c: u32)
    ensures
        (a | b) | b == a | b,
        (a | b) | c == (a | c) | b,
        (a | c == a) ==> (a | b) | c == a | b,
        a | (b | c) == (a | b) | c,
        a | b == b | a,
        a | 0 == a,
{
    assert((a | b) | b == a | b) by (bit_vector);
    assert((a | b) | c == (a | c) | b) by (bit_vector);
    assert((a | c == a) ==> (a | b) | c == a | b) by (bit_vector);
    assert(a | (b | c) == (a | b) | c) by (bit_vector);
    assert(a | b == b | a) by (bit_vector);
    assert(a | 0 == a) by (bit_vector);
}

proof fn lemma_or_all_absorbs_u32(s: Seq<u32>, e: u32)
    requires
        s.contains(e),
    ensures
        or_all_u32(s) | e == or_all_u32(s),
    decreases s.len(),
{
    let rest = s.drop_last();
    lemma_or_facts_u32(or_all_u32(rest), s.last(), e);
    if s.last() != e {
        let i = choose|i: int| 0 <= i < s.len() && s[i] == e;
        assert(rest[i] == e);
        lemma_or_all_absorbs_u32(rest, e);
    }
}

proof fn lemma_or_all_absorbs_all_u32(s: Seq<u32>, t: Seq<u32>)
    requires
        forall|i: int| 0 <= i < t.len() ==> s.contains(#[trigger] t[i]),
    ensures
        or_all_u32(s) | or_all_u32(t) == or_all_u32(s),
    decreases t.len(),
{
    if t.len() == 0 {
        lemma_or_facts_u32(or_all_u32(s), 0, 0);
    } else {
        let rest = t.drop_last();
        assert forall|i: int| 0 <= i < rest.len() implies s.contains(#[trigger] rest[i]) by {
            assert(rest[i] == t[i]);
        }
        lemma_or_all_absorbs_all_u32(s, rest);
        assert(s.contains(t[t.len() - 1]));
        lemma_or_all_absorbs_u32(s, t.last());
        lemma_or_facts_u32(or_all_u32(s), or_all_u32(rest), t.last());
    }
}

/// Two lists that hold the same values, in any order and any number of
/// times, have the same OR.
pub proof fn lemma_or_all_same_values_u32(s: Seq<u32>, t: Seq<u32>)
    requires
        forall|i: int| 0 <= i < t.len() ==> s.contains(#[trigger] t[i]),
        forall|i: int| 0 <= i < s.len() ==> t.contains(#[trigger] s[i]),
    ensures
        or_all_u32(s) == or_all_u32(t),
{
    lemma_or_all_absorbs_all_u32(s, t);
    lemma_or_all_absorbs_all_u32(t, s);
    lemma_or_facts_u32(or_all_u32(s), or_all_u32(t), 0);
}

} // verus!
