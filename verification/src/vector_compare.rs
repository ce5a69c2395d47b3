use vstd::prelude::*;

use crate::results::ResultsError;
use crate::sorted_text::{compare_text, lemma_text_lt_transitive, lemma_text_total, strictly_sorted, text_lt, TextOrder};
use crate::text::{decimal, push_decimal, push_text};
use crate::vector_manifest::{GoldenVector, VectorManifest};

verus! {

/// What a comparison of vector manifests looks at in a vector: its kind,
/// its hexadecimal text and its length.
pub open spec fn vector_entry(vector: GoldenVector) -> (Seq<char>, Seq<char>, usize) {
    (vector.kind@, vector.hex@, vector.bytes)
}

/// The vectors of a manifest by name; of two vectors with one name, the
/// later one counts.
pub open spec fn vector_index(vectors: Seq<GoldenVector>) -> Map<Seq<char>, (Seq<char>, Seq<char>, usize)>
    decreases vectors.len(),
{
    if vectors.len() == 0 {
        Map::empty()
    } else {
        vector_index(vectors.drop_last()).insert(vectors.last().name@, vector_entry(vectors.last()))
    }
}

/// A vector of the expected index that the actual index lacks or holds
/// differently.
pub open spec fn vector_differs(
    expected: Map<Seq<char>, (Seq<char>, Seq<char>, usize)>,
    actual: Map<Seq<char>, (Seq<char>, Seq<char>, usize)>,
    name: Seq<char>,
) -> bool {
    expected.dom().contains(name) && (!actual.dom().contains(name) || actual[name] != expected[name])
}

/// The names of a list of vectors.
pub open spec fn vector_names(vectors: Seq<GoldenVector>) -> Seq<Seq<char>> {
    vectors.map_values(|v: GoldenVector| v.name@)
}

/// A list of vectors sorted by name, one per name, that holds the vectors
/// of an index.
pub open spec fn indexes(list: Seq<GoldenVector>, index: Map<Seq<char>, (Seq<char>, Seq<char>, usize)>) -> bool {
    &&& strictly_sorted(vector_names(list))
    &&& forall|k: int| 0 <= k < list.len() ==> index.dom().contains(#[trigger] list[k].name@) && index[list[k].name@]
        == vector_entry(list[k])
    &&& forall|n: Seq<char>| index.dom().contains(n) ==> vector_names(list).contains(n)
}

proof fn lemma_index_finite(vectors: Seq<GoldenVector>)
    ensures
        vector_index(vectors).dom().finite(),
    decreases vectors.len(),
{
    if vectors.len() > 0 {
        lemma_index_finite(vectors.drop_last());
    }
}

proof fn lemma_indexes_len(list: Seq<GoldenVector>, index: Map<Seq<char>, (Seq<char>, Seq<char>, usize)>)
    requires
        indexes(list, index),
    ensures
        list.len() == index.dom().len(),
{
    let names = vector_names(list);
    assert forall|i: int, j: int| 0 <= i < names.len() && 0 <= j < names.len() && i != j implies names[i] != names[j] by {
        if i < j {
            lemma_text_total(names[i], names[j]);
        } else {
            lemma_text_total(names[j], names[i]);
        }
    }
    names.unique_seq_to_set();
    assert forall|n: Seq<char>| names.to_set().contains(n) <==> index.dom().contains(n) by {
        if names.contains(n) {
            let k = choose|k: int| 0 <= k < names.len() && names[k] == n;
            assert(list[k].name@ == n);
        }
    }
    assert(names.to_set() =~= index.dom());
}

/// Finds the vector of a name in a list sorted by name, or the place where
/// it belongs.
fn find_vector(list: &Vec<GoldenVector>, name: &String) -> (found: (bool, usize))
    requires
        strictly_sorted(vector_names(list@)),
    ensures
        found.1 <= list@.len(),
        found.0 ==> found.1 < list@.len() && list@[found.1 as int].name@ == name@,
        !found.0 ==> !vector_names(list@).contains(name@)
            && (forall|k: int| 0 <= k < found.1 ==> text_lt(#[trigger] vector_names(list@)[k], name@))
            && (forall|k: int| found.1 <= k < list@.len() ==> text_lt(name@, #[trigger] vector_names(list@)[k])),
{
    let ghost names = vector_names(list@);
    let mut p: usize = 0;
    while p < list.len()
        invariant
            p <= list@.len(),
            names == vector_names(list@),
            strictly_sorted(names),
            forall|k: int| 0 <= k < p ==> text_lt(#[trigger] names[k], name@),
        decreases list@.len() - p,
    {
        match compare_text(list[p].name.as_str(), name.as_str()) {
            TextOrder::Less => {
                p = p + 1;
            },
            TextOrder::Equal => {
                return (true, p);
            },
            TextOrder::Greater => {
                proof {
                    assert forall|k: int| p <= k < list@.len() implies text_lt(name@, #[trigger] names[k]) by {
                        if k > p {
                            lemma_text_lt_transitive(name@, names[p as int], names[k]);
                        }
                    }
                    assert forall|k: int| 0 <= k < names.len() implies #[trigger] names[k] != name@ by {
                        lemma_text_total(names[k], name@);
                    }
                }
                return (false, p);
            },
        }
    }
    proof {
        assert forall|k: int| 0 <= k < names.len() implies #[trigger] names[k] != name@ by {
            lemma_text_total(names[k], name@);
        }
    }
    (false, p)
}

/// A copy of a vector.
fn copy_vector(vector: &GoldenVector) -> (copy: GoldenVector)
    ensures
        copy == *vector,
{
    GoldenVector {
        name: vector.name.clone(),
        kind: vector.kind.clone(),
        hex: vector.hex.clone(),
        bytes: vector.bytes,
        description: vector.description.clone(),
    }
}

/// The vectors of a list sorted by name, one per name, the later of two
/// with one name.
fn index_vectors(vectors: &Vec<GoldenVector>) -> (list: Vec<GoldenVector>)
    ensures
        indexes(list@, vector_index(vectors@)),
{
    let mut list: Vec<GoldenVector> = Vec::new();
    let mut i: usize = 0;
    while i < vectors.len()
        invariant
            i <= vectors@.len(),
            indexes(list@, vector_index(vectors@.take(i as int))),
        decreases vectors@.len() - i,
    {
        let vector = copy_vector(&vectors[i]);
        let ghost prior = vector_index(vectors@.take(i as int));
        let ghost next = vector_index(vectors@.take(i + 1));
        proof {
            let t = vectors@.take(i + 1);
            assert(t.drop_last() =~= vectors@.take(i as int));
            assert(t.last() == vectors@[i as int]);
            assert(vector == vectors@[i as int]);
            assert(next == prior.insert(vector.name@, vector_entry(vector)));
        }
        let ghost old_list = list@;
        let (found, p) = find_vector(&list, &vector.name);
        if found {
            list.set(p, vector);
            proof {
                assert(vector_names(list@) =~= vector_names(old_list));
                assert forall|k: int| 0 <= k < list@.len() implies next.dom().contains(#[trigger] list@[k].name@)
                    && next[list@[k].name@] == vector_entry(list@[k]) by {
                    if k != p {
                        assert(list@[k] == old_list[k]);
                        lemma_text_total(vector_names(old_list)[k], vector_names(old_list)[p as int]);
                        if k < p {
                            assert(text_lt(vector_names(old_list)[k], vector_names(old_list)[p as int]));
                        } else {
                            assert(text_lt(vector_names(old_list)[p as int], vector_names(old_list)[k]));
                        }
                    }
                }
                assert forall|n: Seq<char>| next.dom().contains(n) implies vector_names(list@).contains(n) by {
                    if n == vector.name@ {
                        assert(vector_names(list@)[p as int] == n);
                    }
                }
            }
        } else {
            list.insert(p, vector);
            proof {
                let old_names = vector_names(old_list);
                let new_names = vector_names(list@);
                assert(new_names =~= old_names.insert(p as int, vector.name@));
                assert forall|a: int, b: int| 0 <= a < b < new_names.len() implies text_lt(#[trigger] new_names[a], #[trigger] new_names[b]) by {
                    if b < p {
                        assert(new_names[a] == old_names[a] && new_names[b] == old_names[b]);
                    } else if b == p {
                        assert(new_names[a] == old_names[a]);
                    } else if a < p {
                        assert(new_names[a] == old_names[a] && new_names[b] == old_names[b - 1]);
                        lemma_text_lt_transitive(old_names[a], vector.name@, old_names[b - 1]);
                    } else if a == p {
                        assert(new_names[b] == old_names[b - 1]);
                    } else {
                        assert(new_names[a] == old_names[a - 1] && new_names[b] == old_names[b - 1]);
                    }
                }
                assert forall|k: int| 0 <= k < list@.len() implies next.dom().contains(#[trigger] list@[k].name@)
                    && next[list@[k].name@] == vector_entry(list@[k]) by {
                    if k < p {
                        assert(list@[k] == old_list[k]);
                        assert(old_names[k] == old_list[k].name@);
                    } else if k > p {
                        assert(list@[k] == old_list[k - 1]);
                        assert(old_names[k - 1] == old_list[k - 1].name@);
                    }
                }
                assert forall|n: Seq<char>| next.dom().contains(n) implies new_names.contains(n) by {
                    if n == vector.name@ {
                        assert(new_names[p as int] == n);
                    } else {
                        assert(old_names.contains(n));
                        let k = choose|k: int| 0 <= k < old_names.len() && old_names[k] == n;
                        if k < p {
                            assert(new_names[k] == n);
                        } else {
                            assert(new_names[k + 1] == n);
                        }
                    }
                }
            }
        }
        i = i + 1;
    }
    assert(vectors@.take(i as int) =~= vectors@);
    list
}

/// Builds a message that joins two texts with ", got ".
fn pair_message(prefix: &str, expected: &str, actual: &str) -> (message: String)
    ensures
        message@ == prefix@ + expected@ + ", got "@ + actual@,
{
    let mut message = String::new();
    push_text(&mut message, prefix);
    push_text(&mut message, expected);
    push_text(&mut message, ", got ");
    push_text(&mut message, actual);
    message
}

/// Checks that two vector manifests agree: the same protocol version, as
/// many distinct vector names, and for every expected name a vector of the
/// same kind, hexadecimal text and length. Of several differing names the
/// error names the least.
pub fn compare_vector_manifests(expected: &VectorManifest, actual: &VectorManifest) -> (result: Result<(), ResultsError>)
    ensures
        ({
            let e = vector_index(expected.vectors@);
            let a = vector_index(actual.vectors@);
            &&& result is Ok <==> (expected.protocol_version@ == actual.protocol_version@ && e.dom().len() == a.dom().len()
                && forall|n: Seq<char>| !vector_differs(e, a, n))
            &&& result matches Err(error) ==> if expected.protocol_version@ != actual.protocol_version@ {
                error.message@ == "protocol version mismatch: expected "@ + expected.protocol_version@ + ", got "@
                    + actual.protocol_version@
            } else if e.dom().len() != a.dom().len() {
                error.message@ == "vector count mismatch: expected "@ + decimal(e.dom().len()) + ", got "@ + decimal(
                    a.dom().len(),
                )
            } else {
                exists|n: Seq<char>| {
                    &&& vector_differs(e, a, n)
                    &&& forall|m: Seq<char>| vector_differs(e, a, m) ==> !text_lt(m, n)
                    &&& error.message@ == if a.dom().contains(n) {
                        "vector mismatch for "@ + n
                    } else {
                        "missing vector in actual manifest: "@ + n
                    }
                }
            }
        }),
{
    let ghost e = vector_index(expected.vectors@);
    let ghost a = vector_index(actual.vectors@);
    if expected.protocol_version != actual.protocol_version {
        let message = pair_message("protocol version mismatch: expected ", expected.protocol_version.as_str(),
            actual.protocol_version.as_str());
        return Err(ResultsError { message });
    }
    let expected_list = index_vectors(&expected.vectors);
    let actual_list = index_vectors(&actual.vectors);
    proof {
        lemma_indexes_len(expected_list@, e);
        lemma_indexes_len(actual_list@, a);
    }
    if expected_list.len() != actual_list.len() {
        let mut message = String::new();
        push_text(&mut message, "vector count mismatch: expected ");
        push_decimal(&mut message, expected_list.len() as u64);
        push_text(&mut message, ", got ");
        push_decimal(&mut message, actual_list.len() as u64);
        return Err(ResultsError { message });
    }
    let ghost names = vector_names(expected_list@);
    let mut j: usize = 0;
    while j < expected_list.len()
        invariant
            j <= expected_list@.len(),
            names == vector_names(expected_list@),
            e == vector_index(expected.vectors@),
            a == vector_index(actual.vectors@),
            expected.protocol_version@ == actual.protocol_version@,
            e.dom().len() == a.dom().len(),
            indexes(expected_list@, e),
            indexes(actual_list@, a),
            forall|k: int| 0 <= k < j ==> !vector_differs(e, a, #[trigger] names[k]),
        decreases expected_list@.len() - j,
    {
        let entry = &expected_list[j];
        let ghost n = entry.name@;
        assert(names[j as int] == n);
        let (found, p) = find_vector(&actual_list, &entry.name);
        proof {
            assert(e.dom().contains(n) && e[n] == vector_entry(*entry));
            if found {
                assert(a.dom().contains(n) && a[n] == vector_entry(actual_list@[p as int]));
            } else {
                if a.dom().contains(n) {
                    assert(vector_names(actual_list@).contains(n));
                }
            }
            // Every differing name sorts no earlier than this one.
            assert forall|m: Seq<char>| vector_differs(e, a, m) implies !text_lt(m, n) by {
                assert(names.contains(m));
                let k = choose|k: int| 0 <= k < names.len() && names[k] == m;
                if k < j {
                    assert(!vector_differs(e, a, names[k]));
                } else if k > j {
                    lemma_text_total(names[j as int], names[k]);
                } else {
                    lemma_text_total(m, m);
                }
            }
        }
        if !found {
            let mut message = String::new();
            push_text(&mut message, "missing vector in actual manifest: ");
            push_text(&mut message, entry.name.as_str());
            assert(vector_differs(e, a, n) && !a.dom().contains(n));
            return Err(ResultsError { message });
        }
        let other = &actual_list[p];
        if !(other.kind == entry.kind && other.hex == entry.hex && other.bytes == entry.bytes) {
            let mut message = String::new();
            push_text(&mut message, "vector mismatch for ");
            push_text(&mut message, entry.name.as_str());
            assert(vector_differs(e, a, n) && a.dom().contains(n));
            return Err(ResultsError { message });
        }
        j = j + 1;
    }
    proof {
        assert forall|m: Seq<char>| !vector_differs(e, a, m) by {
            if vector_differs(e, a, m) {
                assert(names.contains(m));
                let k = choose|k: int| 0 <= k < names.len() && names[k] == m;
                assert(!vector_differs(e, a, names[k]));
            }
        }
    }
    Ok(())
}

} // verus!
