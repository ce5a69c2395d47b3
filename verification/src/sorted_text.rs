use vstd::prelude::*;
use vstd::utf8::{decode_utf8, encode_utf8, encode_utf8_decode_utf8};

verus! {

/// Byte-wise lexicographic order, the order of Rust strings.
pub open spec fn bytes_lt(a: Seq<u8>, b: Seq<u8>) -> bool
    decreases a.len(),
{
    if a.len() == 0 {
        b.len() > 0
    } else if b.len() == 0 {
        false
    } else if a[0] < b[0] {
        true
    } else if a[0] > b[0] {
        false
    } else {
        bytes_lt(a.drop_first(), b.drop_first())
    }
}

/// The order key of a text: its UTF-8 encoding.
pub open spec fn text_key(t: Seq<char>) -> Seq<u8> {
    encode_utf8(t)
}

/// Text `a` sorts strictly before text `b`.
pub open spec fn text_lt(a: Seq<char>, b: Seq<char>) -> bool {
    bytes_lt(text_key(a), text_key(b))
}

/// The texts of a list of strings.
pub open spec fn texts(v: Seq<String>) -> Seq<Seq<char>> {
    v.map_values(|s: String| s@)
}

/// Strictly increasing texts: sorted, and no text twice.
pub open spec fn strictly_sorted(s: Seq<Seq<char>>) -> bool {
    forall|i: int, j: int| 0 <= i < j < s.len() ==> text_lt(#[trigger] s[i], #[trigger] s[j])
}

pub proof fn lemma_bytes_lt_irreflexive(a: Seq<u8>)
    ensures
        !bytes_lt(a, a),
    decreases a.len(),
{
    if a.len() > 0 {
        lemma_bytes_lt_irreflexive(a.drop_first());
    }
}

pub proof fn lemma_bytes_lt_transitive(a: Seq<u8>, b: Seq<u8>, c: Seq<u8>)
    requires
        bytes_lt(a, b),
        bytes_lt(b, c),
    ensures
        bytes_lt(a, c),
    decreases a.len(),
{
    if a.len() > 0 && b.len() > 0 && c.len() > 0 && a[0] == b[0] && b[0] == c[0] {
        lemma_bytes_lt_transitive(a.drop_first(), b.drop_first(), c.drop_first());
    }
}

pub proof fn lemma_bytes_lt_total(a: Seq<u8>, b: Seq<u8>)
    ensures
        a == b || bytes_lt(a, b) || bytes_lt(b, a),
    decreases a.len(),
{
    if a.len() == 0 {
        if b.len() == 0 {
            assert(a =~= b);
        }
    } else if b.len() > 0 && a[0] == b[0] {
        lemma_bytes_lt_total(a.drop_first(), b.drop_first());
        if a.drop_first() == b.drop_first() {
            assert(a =~= seq![a[0]] + a.drop_first());
            assert(b =~= seq![b[0]] + b.drop_first());
        }
    }
}

pub proof fn lemma_bytes_lt_asymmetric(a: Seq<u8>, b: Seq<u8>)
    requires
        bytes_lt(a, b),
    ensures
        !bytes_lt(b, a),
{
    if bytes_lt(b, a) {
        lemma_bytes_lt_transitive(a, b, a);
        lemma_bytes_lt_irreflexive(a);
    }
}

/// Distinct texts have distinct keys, so any two texts are ordered or equal.
pub proof fn lemma_text_total(a: Seq<char>, b: Seq<char>)
    ensures
        a == b || text_lt(a, b) || text_lt(b, a),
        !text_lt(a, a),
        text_lt(a, b) ==> !text_lt(b, a) && a != b,
{
    lemma_bytes_lt_total(text_key(a), text_key(b));
    if text_key(a) == text_key(b) {
        encode_utf8_decode_utf8(a);
        encode_utf8_decode_utf8(b);
    }
    lemma_bytes_lt_irreflexive(text_key(a));
    if text_lt(a, b) {
        lemma_bytes_lt_asymmetric(text_key(a), text_key(b));
    }
}

pub proof fn lemma_text_lt_transitive(a: Seq<char>, b: Seq<char>, c: Seq<char>)
    requires
        text_lt(a, b),
        text_lt(b, c),
    ensures
        text_lt(a, c),
{
    lemma_bytes_lt_transitive(text_key(a), text_key(b), text_key(c));
}

/// How two texts compare.
#[derive(Debug, Clone, Copy, PartialEq, Eq, Structural)]
pub enum TextOrder {
    Less,
    Equal,
    Greater,
}

/// Compares two texts in the order of Rust strings.
pub fn compare_text(a: &str, b: &str) -> (order: TextOrder)
    ensures
        order == TextOrder::Less <==> text_lt(a@, b@),
        order == TextOrder::Equal <==> a@ == b@,
        order == TextOrder::Greater <==> text_lt(b@, a@),
{
    let x = a.as_bytes();
    let y = b.as_bytes();
    let ghost xs = x@;
    let ghost ys = y@;
    let mut i: usize = 0;
    proof {
        lemma_text_total(a@, b@);
        assert(xs.skip(0) =~= xs);
        assert(ys.skip(0) =~= ys);
    }
    while i < x.len() && i < y.len() && x[i] == y[i]
        invariant
            i <= xs.len(),
            i <= ys.len(),
            x@ == xs,
            y@ == ys,
            xs == text_key(a@),
            ys == text_key(b@),
            bytes_lt(xs, ys) == bytes_lt(xs.skip(i as int), ys.skip(i as int)),
            bytes_lt(ys, xs) == bytes_lt(ys.skip(i as int), xs.skip(i as int)),
            forall|k: int| 0 <= k < i ==> xs[k] == ys[k],
        decreases xs.len() - i,
    {
        assert(xs.skip(i as int).drop_first() =~= xs.skip(i + 1));
        assert(ys.skip(i as int).drop_first() =~= ys.skip(i + 1));
        i = i + 1;
    }
    if i == x.len() && i == y.len() {
        proof {
            assert(xs =~= ys);
            lemma_text_total(a@, b@);
            if a@ != b@ {
                encode_utf8_decode_utf8(a@);
                encode_utf8_decode_utf8(b@);
            }
            lemma_bytes_lt_irreflexive(xs);
        }
        TextOrder::Equal
    } else if i == x.len() || (i < y.len() && x[i] < y[i]) {
        proof {
            assert(bytes_lt(xs.skip(i as int), ys.skip(i as int)));
            lemma_bytes_lt_asymmetric(xs, ys);
            lemma_text_total(a@, b@);
        }
        TextOrder::Less
    } else {
        proof {
            assert(bytes_lt(ys.skip(i as int), xs.skip(i as int)));
            lemma_bytes_lt_asymmetric(ys, xs);
            lemma_text_total(a@, b@);
        }
        TextOrder::Greater
    }
}

/// Inserts `item` into a strictly sorted list of texts unless its text is
/// already there; says whether it was new.
pub fn insert_sorted_text(list: &mut Vec<String>, item: String) -> (inserted: bool)
    requires
        strictly_sorted(texts(old(list)@)),
    ensures
        strictly_sorted(texts(final(list)@)),
        inserted == !texts(old(list)@).contains(item@),
        forall|t: Seq<char>| texts(final(list)@).contains(t) <==> (texts(old(list)@).contains(t) || t == item@),
        final(list)@.len() == old(list)@.len() + if inserted { 1int } else { 0int },
{
    let ghost start = texts(list@);
    let mut p: usize = 0;
    while p < list.len()
        invariant
            p <= list@.len(),
            texts(list@) == start,
            strictly_sorted(start),
            forall|k: int| 0 <= k < p ==> text_lt(#[trigger] start[k], item@),
        ensures
            p <= list@.len(),
            texts(list@) == start,
            forall|k: int| 0 <= k < p ==> text_lt(#[trigger] start[k], item@),
            p < list@.len() ==> text_lt(item@, start[p as int]),
        decreases list@.len() - p,
    {
        match compare_text(list[p].as_str(), item.as_str()) {
            TextOrder::Less => {
                p = p + 1;
            },
            TextOrder::Equal => {
                assert(start[p as int] == item@);
                assert(start.contains(item@));
                return false;
            },
            TextOrder::Greater => {
                break;
            },
        }
    }
    let ghost before = list@;
    proof {
        assert forall|k: int| p <= k < start.len() implies text_lt(item@, #[trigger] start[k]) by {
            assert(text_lt(item@, start[p as int]));
            if k > p {
                lemma_text_lt_transitive(item@, start[p as int], start[k]);
            }
        }
        assert forall|k: int| 0 <= k < start.len() implies #[trigger] start[k] != item@ by {
            lemma_text_total(start[k], item@);
        }
    }
    list.insert(p, item);
    proof {
        let now = texts(list@);
        assert(now =~= start.insert(p as int, item@));
        assert forall|i: int, j: int| 0 <= i < j < now.len() implies text_lt(#[trigger] now[i], #[trigger] now[j]) by {
            if j < p {
            } else if j == p {
            } else if i < p {
                lemma_text_lt_transitive(now[i], item@, now[j]);
            } else if i == p {
            } else {
            }
        }
        assert forall|t: Seq<char>| now.contains(t) <==> (start.contains(t) || t == item@) by {
            if now.contains(t) {
                let k = choose|k: int| 0 <= k < now.len() && now[k] == t;
                if k < p {
                    assert(start[k] == t);
                } else if k > p {
                    assert(start[k - 1] == t);
                }
            }
            if start.contains(t) {
                let k = choose|k: int| 0 <= k < start.len() && start[k] == t;
                if k < p {
                    assert(now[k] == t);
                } else {
                    assert(now[k + 1] == t);
                }
            }
            if t == item@ {
                assert(now[p as int] == t);
            }
        }
        assert(!start.contains(item@));
    }
    true
}

} // verus!
