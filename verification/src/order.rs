//! Lexicographic order on strings, and insertion into a sorted,
//! duplicate-free list of trip ids. The orchestrator processes trips in
//! ascending `trip_id` order, so the id sequence of a run is a pure
//! function of the feed.

use vstd::prelude::*;

verus! {

/// Strict lexicographic order on character sequences: a proper prefix
/// comes first, otherwise the first differing character decides.
pub open spec fn lex_lt(a: Seq<char>, b: Seq<char>) -> bool
    decreases a.len(),
{
    if b.len() == 0 {
        false
    } else if a.len() == 0 {
        true
    } else if a[0] != b[0] {
        a[0] < b[0]
    } else {
        lex_lt(a.drop_first(), b.drop_first())
    }
}

/// The order is total: two distinct strings compare one way or the other.
pub proof fn lemma_lex_lt_total(a: Seq<char>, b: Seq<char>)
    ensures
        a != b ==> lex_lt(a, b) || lex_lt(b, a),
    decreases a.len(),
{
    if a.len() == 0 && b.len() == 0 {
        assert(a =~= b);
    } else if a.len() == 0 || b.len() == 0 {
    } else if a[0] != b[0] {
        assert(a[0] < b[0] || b[0] < a[0]);
    } else {
        lemma_lex_lt_total(a.drop_first(), b.drop_first());
        if a.drop_first() == b.drop_first() {
            assert(a.drop_first().len() == b.drop_first().len());
            assert forall|i: int| 1 <= i < a.len() implies a[i] == b[i] by {
                assert(a.drop_first()[i - 1] == b.drop_first()[i - 1]);
            }
            assert(a =~= b);
        }
    }
}

/// The order is asymmetric.
pub proof fn lemma_lex_lt_asym(a: Seq<char>, b: Seq<char>)
    ensures
        !(lex_lt(a, b) && lex_lt(b, a)),
    decreases a.len(),
{
    if a.len() == 0 || b.len() == 0 {
    } else if a[0] == b[0] {
        lemma_lex_lt_asym(a.drop_first(), b.drop_first());
    }
}

/// The order is transitive.
pub proof fn lemma_lex_lt_trans(a: Seq<char>, b: Seq<char>, c: Seq<char>)
    ensures
        lex_lt(a, b) && lex_lt(b, c) ==> lex_lt(a, c),
    decreases a.len(),
{
    if lex_lt(a, b) && lex_lt(b, c) {
        if a.len() == 0 || b.len() == 0 || c.len() == 0 {
        } else if a[0] == b[0] && b[0] == c[0] {
            lemma_lex_lt_trans(a.drop_first(), b.drop_first(), c.drop_first());
        }
    }
}

/// Decides [`lex_lt`] on two string slices.
pub fn str_lt(a: &str, b: &str) -> (r: bool)
    ensures
        r == lex_lt(a@, b@),
{
    let a_len = a.unicode_len();
    let b_len = b.unicode_len();
    let mut i: usize = 0;
    assert(a@.skip(0) =~= a@);
    assert(b@.skip(0) =~= b@);
    while i < a_len && i < b_len
        invariant
            i <= a_len,
            i <= b_len,
            a_len == a@.len(),
            b_len == b@.len(),
            lex_lt(a@, b@) == lex_lt(a@.skip(i as int), b@.skip(i as int)),
        decreases a_len - i,
    {
        let ca = a.get_char(i);
        let cb = b.get_char(i);
        assert(a@.skip(i as int)[0] == a@[i as int]);
        assert(b@.skip(i as int)[0] == b@[i as int]);
        if ca != cb {
            return ca < cb;
        }
        assert(a@.skip(i as int).drop_first() =~= a@.skip(i + 1));
        assert(b@.skip(i as int).drop_first() =~= b@.skip(i + 1));
        i += 1;
    }
    assert(a@.skip(i as int).len() == 0 || b@.skip(i as int).len() == 0);
    a_len < b_len
}

/// A strictly ascending — hence duplicate-free — list of strings.
pub open spec fn sorted_strict(ids: Seq<Seq<char>>) -> bool {
    forall|i: int, j: int| 0 <= i < j < ids.len() ==> lex_lt(ids[i], ids[j])
}

/// Inserts `k` into `ids` at its place in the order; leaves `ids`
/// unchanged when `k` is already present.
pub open spec fn sorted_insert(ids: Seq<Seq<char>>, k: Seq<char>) -> Seq<Seq<char>>
    decreases ids.len(),
{
    if ids.len() == 0 {
        seq![k]
    } else if ids[0] == k {
        ids
    } else if lex_lt(k, ids[0]) {
        seq![k] + ids
    } else {
        seq![ids[0]] + sorted_insert(ids.drop_first(), k)
    }
}

/// Insertion adds exactly the inserted string to the members.
pub proof fn lemma_sorted_insert_membership(ids: Seq<Seq<char>>, k: Seq<char>, x: Seq<char>)
    ensures
        sorted_insert(ids, k).contains(x) <==> ids.contains(x) || x == k,
    decreases ids.len(),
{
    if ids.len() == 0 {
        assert(sorted_insert(ids, k) =~= seq![k]);
        if x == k {
            assert(seq![k][0] == k);
            assert(seq![k].contains(k));
        }
        if ids.contains(x) {
            let i = choose|i: int| 0 <= i < ids.len() && ids[i] == x;
            assert(false);
        }
        if sorted_insert(ids, k).contains(x) {
            let i = choose|i: int| 0 <= i < seq![k].len() && seq![k][i] == x;
            assert(x == k);
        }
    } else if ids[0] == k {
        if x == k {
            assert(ids.contains(x)) by {
                assert(ids[0] == x);
            }
        }
    } else if lex_lt(k, ids[0]) {
        let r = seq![k] + ids;
        if x == k {
            assert(r[0] == k);
            assert(r.contains(x));
        }
        if ids.contains(x) {
            let i = choose|i: int| 0 <= i < ids.len() && ids[i] == x;
            assert(r[i + 1] == x);
            assert(r.contains(x));
        }
        if r.contains(x) {
            let i = choose|i: int| 0 <= i < r.len() && r[i] == x;
            if i == 0 {
                assert(x == k);
            } else {
                assert(ids[i - 1] == x);
                assert(ids.contains(x));
            }
        }
    } else {
        let rest = ids.drop_first();
        lemma_sorted_insert_membership(rest, k, x);
        let r = seq![ids[0]] + sorted_insert(rest, k);
        assert(sorted_insert(ids, k) == r);
        if x == k || ids.contains(x) {
            if x == k || rest.contains(x) {
                let i = choose|i: int| 0 <= i < sorted_insert(rest, k).len()
                    && sorted_insert(rest, k)[i] == x;
                assert(r[i + 1] == x);
                assert(r.contains(x));
            } else {
                let i = choose|i: int| 0 <= i < ids.len() && ids[i] == x;
                if i == 0 {
                    assert(r[0] == x);
                    assert(r.contains(x));
                } else {
                    assert(rest[i - 1] == x);
                    assert(rest.contains(x));
                }
            }
        }
        if r.contains(x) {
            let i = choose|i: int| 0 <= i < r.len() && r[i] == x;
            if i == 0 {
                assert(ids[0] == x);
                assert(ids.contains(x));
            } else {
                assert(sorted_insert(rest, k)[i - 1] == x);
                assert(sorted_insert(rest, k).contains(x));
                if rest.contains(x) {
                    let j = choose|j: int| 0 <= j < rest.len() && rest[j] == x;
                    assert(ids[j + 1] == x);
                    assert(ids.contains(x));
                }
            }
        }
    }
}

/// Insertion keeps the list strictly ascending.
pub proof fn lemma_sorted_insert_sorted(ids: Seq<Seq<char>>, k: Seq<char>)
    requires
        sorted_strict(ids),
    ensures
        sorted_strict(sorted_insert(ids, k)),
    decreases ids.len(),
{
    if ids.len() == 0 {
    } else if ids[0] == k {
    } else if lex_lt(k, ids[0]) {
        let r = seq![k] + ids;
        assert forall|i: int, j: int| 0 <= i < j < r.len() implies lex_lt(r[i], r[j]) by {
            if i == 0 {
                if j == 1 {
                    assert(r[j] == ids[0]);
                } else {
                    assert(r[j] == ids[j - 1]);
                    assert(lex_lt(ids[0], ids[j - 1]));
                    lemma_lex_lt_trans(k, ids[0], ids[j - 1]);
                }
            } else {
                assert(r[i] == ids[i - 1] && r[j] == ids[j - 1]);
            }
        }
    } else {
        let rest = ids.drop_first();
        assert(sorted_strict(rest)) by {
            assert forall|i: int, j: int| 0 <= i < j < rest.len() implies lex_lt(rest[i], rest[j]) by {
                assert(rest[i] == ids[i + 1] && rest[j] == ids[j + 1]);
            }
        }
        lemma_sorted_insert_sorted(rest, k);
        lemma_lex_lt_total(k, ids[0]);
        assert(lex_lt(ids[0], k));
        let r = seq![ids[0]] + sorted_insert(rest, k);
        assert(sorted_insert(ids, k) == r);
        assert forall|i: int, j: int| 0 <= i < j < r.len() implies lex_lt(r[i], r[j]) by {
            if i == 0 {
                let x = sorted_insert(rest, k)[j - 1];
                assert(sorted_insert(rest, k).contains(x));
                lemma_sorted_insert_membership(rest, k, x);
                if x == k {
                    assert(lex_lt(ids[0], k));
                } else {
                    let m = choose|m: int| 0 <= m < rest.len() && rest[m] == x;
                    assert(rest[m] == ids[m + 1]);
                    assert(lex_lt(ids[0], ids[m + 1]));
                }
            } else {
                assert(lex_lt(sorted_insert(rest, k)[i - 1], sorted_insert(rest, k)[j - 1]));
            }
        }
    }
}

/// Inserting a string that is already present changes nothing.
pub proof fn lemma_sorted_insert_contained(ids: Seq<Seq<char>>, k: Seq<char>)
    requires
        sorted_strict(ids),
        ids.contains(k),
    ensures
        sorted_insert(ids, k) == ids,
    decreases ids.len(),
{
    let i = choose|i: int| 0 <= i < ids.len() && ids[i] == k;
    if ids[0] == k {
    } else if lex_lt(k, ids[0]) {
        assert(i >= 1);
        assert(lex_lt(ids[0], ids[i]));
        lemma_lex_lt_asym(k, ids[0]);
        assert(false);
    } else {
        let rest = ids.drop_first();
        assert(sorted_strict(rest)) by {
            assert forall|p: int, q: int| 0 <= p < q < rest.len() implies lex_lt(rest[p], rest[q]) by {
                assert(rest[p] == ids[p + 1] && rest[q] == ids[q + 1]);
            }
        }
        assert(i >= 1);
        assert(rest[i - 1] == k);
        assert(rest.contains(k));
        lemma_sorted_insert_contained(rest, k);
        assert(seq![ids[0]] + rest =~= ids);
    }
}

/// Inserts a trip id into a sorted duplicate-free vector of trip ids.
pub fn insert_trip_id(ids: &mut Vec<String>, k: &String)
    ensures
        final(ids).deep_view() == sorted_insert(old(ids).deep_view(), k@),
{
    let ghost ids0 = old(ids).deep_view();
    let mut j: usize = 0;
    assert(ids0.skip(0) =~= ids0);
    assert(ids0.take(0) + sorted_insert(ids0, k@) =~= sorted_insert(ids0, k@));
    while j < ids.len()
        invariant
            j <= ids.len(),
            ids0 == old(ids).deep_view(),
            ids.deep_view() == ids0,
            ids@.len() == ids0.len(),
            sorted_insert(ids0, k@) == ids0.take(j as int) + sorted_insert(
                ids0.skip(j as int),
                k@,
            ),
        decreases ids.len() - j,
    {
        assert(ids0.skip(j as int)[0] == ids0[j as int]);
        assert(ids@[j as int]@ == ids0[j as int]);
        if ids[j] == *k {
            assert(sorted_insert(ids0.skip(j as int), k@) == ids0.skip(j as int));
            assert(ids0.take(j as int) + ids0.skip(j as int) =~= ids0);
            return ;
        }
        if str_lt(k.as_str(), ids[j].as_str()) {
            ids.insert(j, k.clone());
            assert(sorted_insert(ids0.skip(j as int), k@) == seq![k@] + ids0.skip(j as int));
            assert(ids.deep_view() =~= ids0.take(j as int) + (seq![k@] + ids0.skip(j as int)));
            return ;
        }
        assert(ids0.skip(j as int).drop_first() =~= ids0.skip(j + 1));
        assert(sorted_insert(ids0.skip(j as int), k@) == seq![ids0[j as int]] + sorted_insert(
            ids0.skip(j + 1),
            k@,
        ));
        assert(ids0.take(j as int) + (seq![ids0[j as int]] + sorted_insert(ids0.skip(j + 1), k@))
            =~= ids0.take(j + 1) + sorted_insert(ids0.skip(j + 1), k@));
        j += 1;
    }
    assert(ids0.skip(j as int).len() == 0);
    assert(sorted_insert(ids0.skip(j as int), k@) == seq![k@]);
    ids.push(k.clone());
    assert(ids.deep_view() =~= ids0.take(ids0.len() as int) + seq![k@]);
    assert(ids0.take(ids0.len() as int) =~= ids0);
}

} // verus!
