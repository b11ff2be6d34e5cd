//! Sets of component names, held as lists of strings, and the order of strings.

use vstd::prelude::*;

verus! {

/// The names of a list of strings.
pub open spec fn names(v: Seq<String>) -> Seq<Seq<char>> {
    v.map_values(|s: String| s@)
}

/// The names a list of strings holds, as a set.
pub open spec fn name_set(v: Seq<String>) -> Set<Seq<char>> {
    names(v).to_set()
}

/// Whether a list of names holds no name twice.
pub open spec fn distinct_names(v: Seq<String>) -> bool {
    names(v).no_duplicates()
}

/// Whether `a` comes no later than `b` in the order of strings: the
/// lexicographic order of their characters, by scalar value. As UTF-8 keeps
/// the order of scalar values, this is the byte-wise order of `String`.
pub open spec fn chars_le(a: Seq<char>, b: Seq<char>) -> bool
    decreases a.len(),
{
    if a.len() == 0 {
        true
    } else if b.len() == 0 {
        false
    } else if a[0] == b[0] {
        chars_le(a.drop_first(), b.drop_first())
    } else {
        (a[0] as u32) < (b[0] as u32)
    }
}

/// Whether a list of strings is in the order of strings.
pub open spec fn sorted_names(v: Seq<String>) -> bool {
    forall|i: int, j: int| 0 <= i < j < v.len() ==> chars_le(#[trigger] v[i]@, #[trigger] v[j]@)
}

/// Calls `slice::sort` on a vector of strings. Its documentation promises that
/// the result is the same strings, in the order that `String`'s `Ord` gives,
/// which compares the strings byte by byte; on UTF-8 that is the order
/// `chars_le` states.
#[verifier::external_body]
pub(crate) fn sort_strings(v: &mut Vec<String>)
    ensures
        final(v)@.to_multiset() == old(v)@.to_multiset(),
        sorted_names(final(v)@),
{
    v.sort();
}

/// `chars_le` is antisymmetric: two strings each no later than the other are
/// the same.
pub proof fn lemma_chars_le_antisymmetric(a: Seq<char>, b: Seq<char>)
    requires
        chars_le(a, b),
        chars_le(b, a),
    ensures
        a == b,
    decreases a.len(),
{
    if a.len() > 0 && b.len() > 0 {
        if a[0] == b[0] {
            lemma_chars_le_antisymmetric(a.drop_first(), b.drop_first());
            assert(a =~= seq![a[0]] + a.drop_first());
            assert(b =~= seq![b[0]] + b.drop_first());
        }
    }
}

/// Lists holding the same strings hold the same names.
pub proof fn lemma_same_strings_same_names(a: Seq<String>, b: Seq<String>)
    requires
        a.to_multiset() == b.to_multiset(),
    ensures
        name_set(a) == name_set(b),
{
    assert forall|x: Seq<char>| name_set(a).contains(x) implies name_set(b).contains(x) by {
        let k = choose|k: int| 0 <= k < names(a).len() && names(a)[k] == x;
        vstd::seq_lib::to_multiset_contains(a, a[k]);
        vstd::seq_lib::to_multiset_contains(b, a[k]);
        assert(a.contains(a[k]));
        let j = choose|j: int| 0 <= j < b.len() && b[j] == a[k];
        assert(names(b)[j] == x);
    }
    assert forall|x: Seq<char>| name_set(b).contains(x) implies name_set(a).contains(x) by {
        let k = choose|k: int| 0 <= k < names(b).len() && names(b)[k] == x;
        vstd::seq_lib::to_multiset_contains(a, b[k]);
        vstd::seq_lib::to_multiset_contains(b, b[k]);
        assert(b.contains(b[k]));
        let j = choose|j: int| 0 <= j < a.len() && a[j] == b[k];
        assert(names(a)[j] == x);
    }
    assert(name_set(a) =~= name_set(b));
}

/// The set of names of `all`, held as a list in the order of strings, with no
/// name twice.
pub fn sorted_name_set(all: Vec<String>) -> (r: Vec<String>)
    ensures
        distinct_names(r@),
        sorted_names(r@),
        name_set(r@) == name_set(all@),
{
    let ghost original = all@;
    let mut w = all;
    sort_strings(&mut w);
    proof {
        lemma_same_strings_same_names(w@, original);
    }
    let mut out: Vec<String> = Vec::new();
    let ghost mut idx: Seq<int> = Seq::empty();
    let mut i: usize = 0;
    while i < w.len()
        invariant
            i <= w@.len(),
            sorted_names(w@),
            out@.len() == idx.len(),
            forall|m: int| 0 <= m < idx.len() ==> 0 <= #[trigger] idx[m] < i && out@[m] == w@[idx[m]],
            forall|m: int, n: int| 0 <= m < n < idx.len() ==> #[trigger] idx[m] < #[trigger] idx[n],
            i > 0 ==> out@.len() > 0,
            out@.len() > 0 ==> forall|j: int|
                idx.last() <= j < i ==> (#[trigger] w@[j])@ == out@.last()@,
            distinct_names(out@),
            forall|j: int| 0 <= j < i ==> name_set(out@).contains((#[trigger] w@[j])@),
            name_set(out@).subset_of(name_set(w@)),
        decreases w@.len() - i,
    {
        let fresh = out.len() == 0 || !(out[out.len() - 1] == w[i]);
        if fresh {
            let ghost before = out@;
            proof {
                assert forall|m: int| 0 <= m < before.len() implies (#[trigger] before[m])@ != w@[i as int]@ by {
                    let last = before.len() - 1;
                    if m < last {
                        assert(chars_le(w@[idx[m]]@, w@[idx[last]]@));
                        assert(chars_le(w@[idx[last]]@, w@[i as int]@));
                        if before[m]@ == w@[i as int]@ {
                            lemma_chars_le_antisymmetric(w@[idx[m]]@, w@[idx[last]]@);
                        }
                    }
                }
            }
            out.push(w[i].clone());
            proof {
                idx = idx.push(i as int);
                assert(names(out@) =~= names(before).push(w@[i as int]@));
                names(before).lemma_push_to_set_commute(w@[i as int]@);
                assert forall|a: int, b: int| 0 <= a < b < names(out@).len() implies names(out@)[a] != names(out@)[b] by {
                    if b < before.len() {
                        assert(names(before)[a] != names(before)[b]);
                    }
                }
                assert forall|x: Seq<char>| name_set(out@).contains(x) implies name_set(w@).contains(x) by {
                    if x != w@[i as int]@ {
                        assert(name_set(before).contains(x));
                    } else {
                        assert(names(w@)[i as int] == x);
                    }
                }
                assert forall|j: int| 0 <= j < i + 1 implies name_set(out@).contains((#[trigger] w@[j])@) by {
                    if j < i {
                        assert(name_set(before).contains(w@[j]@));
                    }
                }
            }
        } else {
            proof {
                assert(names(out@)[out@.len() - 1] == w@[i as int]@);
            }
        }
        i = i + 1;
    }
    proof {
        assert forall|a: int, b: int| 0 <= a < b < out@.len() implies chars_le(#[trigger] out@[a]@, #[trigger] out@[b]@) by {
            assert(idx[a] < idx[b]);
        }
        assert forall|x: Seq<char>| name_set(w@).contains(x) implies name_set(out@).contains(x) by {
            let k = choose|k: int| 0 <= k < names(w@).len() && names(w@)[k] == x;
            assert(name_set(out@).contains(w@[k]@));
        }
        assert(name_set(out@) =~= name_set(w@));
    }
    out
}

} // verus!
