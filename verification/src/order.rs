//! Lexicographic order of texts, and sorting by it.

use crate::text::{chars_of, texts};
use vstd::prelude::*;

verus! {

/// `a` comes before `b`: at the first place where they differ `a` has the
/// smaller character, or `b` goes on where `a` ends.
pub open spec fn before(a: Seq<char>, b: Seq<char>) -> bool
    decreases a.len(),
{
    if b.len() == 0 {
        false
    } else if a.len() == 0 {
        true
    } else {
        a[0] < b[0] || (a[0] == b[0] && before(a.skip(1), b.skip(1)))
    }
}

/// No text comes before one to its left.
pub open spec fn sorted(list: Seq<Seq<char>>) -> bool {
    forall|i: int, j: int| 0 <= i < j < list.len() ==> !before(#[trigger] list[j], #[trigger] list[i])
}

pub proof fn lemma_before_transitive(a: Seq<char>, b: Seq<char>, c: Seq<char>)
    requires
        before(a, b),
        before(b, c),
    ensures
        before(a, c),
    decreases a.len(),
{
    if a.len() > 0 && a[0] == b[0] && b[0] == c[0] {
        lemma_before_transitive(a.skip(1), b.skip(1), c.skip(1));
    }
}

pub proof fn lemma_before_asymmetric(a: Seq<char>, b: Seq<char>)
    requires
        before(a, b),
    ensures
        !before(b, a),
    decreases a.len(),
{
    if a.len() > 0 && a[0] == b[0] {
        lemma_before_asymmetric(a.skip(1), b.skip(1));
    }
}

/// Whether `a` comes before `b`.
pub fn comes_before(a: &str, b: &str) -> (is: bool)
    ensures
        is == before(a@, b@),
{
    let left: Vec<char> = chars_of(a);
    let right: Vec<char> = chars_of(b);
    let mut i: usize = 0;
    assert(left@.skip(0) == left@);
    assert(right@.skip(0) == right@);
    while i < left.len() && i < right.len() && left[i] == right[i]
        invariant
            i <= left@.len(),
            i <= right@.len(),
            before(left@.skip(i as int), right@.skip(i as int)) == before(left@, right@),
        decreases left@.len() - i,
    {
        assert(left@.skip(i as int).skip(1) == left@.skip(i + 1));
        assert(right@.skip(i as int).skip(1) == right@.skip(i + 1));
        i = i + 1;
    }
    if i >= right.len() {
        false
    } else if i >= left.len() {
        true
    } else {
        left[i] < right[i]
    }
}

/// The texts of `list` in order, each as often as in `list`.
pub fn sort(list: Vec<String>) -> (out: Vec<String>)
    ensures
        sorted(texts(out@)),
        texts(out@).to_multiset() == texts(list@).to_multiset(),
{
    let mut out: Vec<String> = Vec::new();
    let mut i: usize = 0;
    assert(texts(out@) == texts(list@).take(0));
    while i < list.len()
        invariant
            i <= list@.len(),
            sorted(texts(out@)),
            texts(out@).to_multiset() == texts(list@).take(i as int).to_multiset(),
        decreases list@.len() - i,
    {
        let ghost held = texts(out@);
        let name: String = list[i].clone();
        let mut k: usize = 0;
        while k < out.len() && !comes_before(name.as_str(), out[k].as_str())
            invariant
                k <= out@.len(),
                held == texts(out@),
                forall|j: int| 0 <= j < k ==> !before(name@, #[trigger] held[j]),
            decreases out@.len() - k,
        {
            k = k + 1;
        }
        out.insert(k, name);
        proof {
            let now = texts(out@);
            assert(now == held.insert(k as int, name@));
            assert forall|p: int, q: int| 0 <= p < q < now.len() implies !before(
                #[trigger] now[q],
                #[trigger] now[p],
            ) by {
                let old_p = if p < k { p } else { p - 1 };
                let old_q = if q < k { q } else { q - 1 };
                if p == k {
                    // `name` stands before `held[k]`, and nothing after that comes before it.
                    lemma_before_asymmetric(name@, held[k as int]);
                    if old_q > k && before(held[old_q], name@) {
                        lemma_before_transitive(held[old_q], name@, held[k as int]);
                    }
                } else if q != k {
                    assert(!before(held[old_q], held[old_p]));
                }
            }
            lemma_insert_multiset(held, k as int, name@);
            assert(texts(list@).take(i + 1) == texts(list@).take(i as int).push(name@));
            lemma_insert_multiset(texts(list@).take(i as int), i as int, name@);
            assert(texts(list@).take(i as int).insert(i as int, name@) == texts(list@).take(
                i as int,
            ).push(name@));
        }
        i = i + 1;
    }
    assert(texts(list@).take(i as int) == texts(list@));
    out
}

proof fn lemma_insert_multiset(s: Seq<Seq<char>>, k: int, x: Seq<char>)
    requires
        0 <= k <= s.len(),
    ensures
        s.insert(k, x).to_multiset() == s.to_multiset().insert(x),
{
    broadcast use vstd::seq_lib::group_to_multiset_ensures;
    let with = s.insert(k, x);
    assert(with.remove(k) == s);
    assert(with[k] == x);
    assert(with.to_multiset().count(x) > 0) by {
        assert(with.contains(x));
    }
    assert(with.to_multiset() =~= s.to_multiset().insert(x));
}

/// Which of two texts comes first is told by the first place where they differ: the
/// smaller character comes first, and where one of them ends there, that one.
pub proof fn law_order_goes_by_the_first_difference(a: Seq<char>, b: Seq<char>, k: int)
    requires
        0 <= k <= a.len(),
        k <= b.len(),
        forall|i: int| 0 <= i < k ==> #[trigger] a[i] == b[i],
    ensures
        k < a.len() && k < b.len() && a[k] < b[k] ==> before(a, b),
        k < a.len() && k < b.len() && a[k] > b[k] ==> !before(a, b),
        k == a.len() && k < b.len() ==> before(a, b),
        k == b.len() ==> !before(a, b),
    decreases k,
{
    if k > 0 {
        let x = a.skip(1);
        let y = b.skip(1);
        assert(a[0] == b[0]);
        assert forall|i: int| 0 <= i < k - 1 implies #[trigger] x[i] == y[i] by {
            assert(a[i + 1] == b[i + 1]);
        }
        law_order_goes_by_the_first_difference(x, y, k - 1);
    }
}

/// In a sorted list no text comes before one that stands before it, wherever the two
/// stand.
pub proof fn law_sorted_lists(list: Seq<Seq<char>>)
    ensures
        sorted(list) <==> forall|i: int, j: int|
            0 <= i < j < list.len() ==> !before(#[trigger] list[j], #[trigger] list[i]),
{
}

}
