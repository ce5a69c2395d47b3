use vstd::prelude::*;

use crate::text::chars_of;

verus! {

/// A character that can go on with a JSON number after `-0.0`.
pub open spec fn continues_number(c: char) -> bool {
    ('0' <= c && c <= '9') || c == 'e' || c == 'E'
}

/// The text begins with the number `-0.0`, written as serde_json writes a
/// negative zero, and the number ends there.
pub open spec fn starts_with_negative_zero(t: Seq<char>) -> bool {
    &&& t.len() >= 4
    &&& t[0] == '-' && t[1] == '0' && t[2] == '.' && t[3] == '0'
    &&& (t.len() == 4 || !continues_number(t[4]))
}

/// JSON text with every negative-zero number `-0.0` written as `0.0`; the
/// text of string literals is kept as it stands. `in_string` and `escaped`
/// say where the scan stands: inside a string literal, after a backslash.
pub open spec fn unsigned_zeros(t: Seq<char>, in_string: bool, escaped: bool) -> Seq<char>
    decreases t.len(),
{
    if t.len() == 0 {
        Seq::empty()
    } else if in_string {
        let c = t[0];
        let (next_in, next_escaped) = if escaped {
            (true, false)
        } else if c == '\\' {
            (true, true)
        } else if c == '"' {
            (false, false)
        } else {
            (true, false)
        };
        seq![c] + unsigned_zeros(t.drop_first(), next_in, next_escaped)
    } else if t[0] == '"' {
        seq!['"'] + unsigned_zeros(t.drop_first(), true, false)
    } else if starts_with_negative_zero(t) {
        seq!['0', '.', '0'] + unsigned_zeros(t.skip(4), false, false)
    } else {
        seq![t[0]] + unsigned_zeros(t.drop_first(), false, false)
    }
}

/// Two JSON texts, as serde_json writes values, denote equal values: they
/// are the same text once negative zeros are written as zeros (serde_json
/// holds `-0.0` and `0.0` equal, and writes equal values alike otherwise).
pub open spec fn same_json_text(a: Seq<char>, b: Seq<char>) -> bool {
    unsigned_zeros(a, false, false) == unsigned_zeros(b, false, false)
}

fn unsigned_zero_chars(text: &str) -> (out: Vec<char>)
    ensures
        out@ == unsigned_zeros(text@, false, false),
{
    let cs = chars_of(text);
    let ghost whole = cs@;
    let mut out: Vec<char> = Vec::new();
    let mut in_string = false;
    let mut escaped = false;
    let mut i: usize = 0;
    assert(whole.skip(0) =~= whole);
    while i < cs.len()
        invariant
            i <= cs@.len(),
            whole == cs@,
            whole == text@,
            !in_string ==> !escaped,
            out@ + unsigned_zeros(whole.skip(i as int), in_string, escaped) == unsigned_zeros(whole, false, false),
        decreases cs@.len() - i,
    {
        let ghost rest = whole.skip(i as int);
        let ghost before = out@;
        assert(rest.drop_first() =~= whole.skip(i + 1));
        assert(rest[0] == cs@[i as int]);
        let c = cs[i];
        if in_string {
            proof {
                let (ni, ne) = if escaped {
                    (true, false)
                } else if c == '\\' {
                    (true, true)
                } else if c == '"' {
                    (false, false)
                } else {
                    (true, false)
                };
                assert(unsigned_zeros(rest, true, escaped) == seq![c] + unsigned_zeros(rest.drop_first(), ni, ne));
            }
            out.push(c);
            if escaped {
                escaped = false;
            } else if c == '\\' {
                escaped = true;
            } else if c == '"' {
                in_string = false;
            }
            assert(out@ + unsigned_zeros(whole.skip(i + 1), in_string, escaped) =~= unsigned_zeros(whole, false, false));
            i = i + 1;
        } else if c == '"' {
            assert(unsigned_zeros(rest, false, escaped) == seq!['"'] + unsigned_zeros(rest.drop_first(), true, false));
            out.push(c);
            in_string = true;
            escaped = false;
            assert(out@ + unsigned_zeros(whole.skip(i + 1), in_string, escaped) =~= unsigned_zeros(whole, false, false));
            i = i + 1;
        } else if c == '-' && cs.len() - i > 3 && cs[i + 1] == '0' && cs[i + 2] == '.' && cs[i + 3] == '0' && (cs.len()
            - i == 4 || !(('0' <= cs[i + 4] && cs[i + 4] <= '9') || cs[i + 4] == 'e' || cs[i + 4] == 'E')) {
            assert(rest[1] == cs@[i + 1] && rest[2] == cs@[i + 2] && rest[3] == cs@[i + 3]);
            assert(i + 4 < cs@.len() ==> rest[4] == cs@[i + 4]);
            assert(starts_with_negative_zero(rest));
            assert(rest.skip(4) =~= whole.skip(i + 4));
            assert(unsigned_zeros(rest, false, escaped) == seq!['0', '.', '0'] + unsigned_zeros(rest.skip(4), false, false));
            out.push('0');
            out.push('.');
            out.push('0');
            assert(out@ + unsigned_zeros(whole.skip(i + 4), in_string, escaped) =~= unsigned_zeros(whole, false, false));
            i = i + 4;
        } else {
            proof {
                if starts_with_negative_zero(rest) {
                    assert(rest[1] == cs@[i + 1] && rest[2] == cs@[i + 2] && rest[3] == cs@[i + 3]);
                    assert(i + 4 < cs@.len() ==> rest[4] == cs@[i + 4]);
                }
            }
            assert(unsigned_zeros(rest, false, escaped) == seq![c] + unsigned_zeros(rest.drop_first(), false, false));
            out.push(c);
            assert(out@ + unsigned_zeros(whole.skip(i + 1), in_string, escaped) =~= unsigned_zeros(whole, false, false));
            i = i + 1;
        }
    }
    assert(whole.skip(i as int) =~= Seq::<char>::empty());
    assert(out@ =~= out@ + Seq::<char>::empty());
    out
}

/// Whether two JSON texts, as serde_json writes values, denote equal values.
pub fn json_texts_equal(a: &str, b: &str) -> (equal: bool)
    ensures
        equal == same_json_text(a@, b@),
{
    let x = unsigned_zero_chars(a);
    let y = unsigned_zero_chars(b);
    if x.len() != y.len() {
        return false;
    }
    let mut i: usize = 0;
    while i < x.len()
        invariant
            i <= x@.len(),
            x@.len() == y@.len(),
            x@ == unsigned_zeros(a@, false, false),
            y@ == unsigned_zeros(b@, false, false),
            forall|k: int| 0 <= k < i ==> x@[k] == y@[k],
        decreases x@.len() - i,
    {
        if x[i] != y[i] {
            assert(x@[i as int] != y@[i as int]);
            return false;
        }
        i = i + 1;
    }
    assert(x@ =~= y@);
    true
}

} // verus!
