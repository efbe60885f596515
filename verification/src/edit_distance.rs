//! The Damerau–Levenshtein distance as a mathematical notion, and what
//! follows from its definition.

use vstd::prelude::*;

verus! {

/// `s` with the characters at positions `i` and `i + 1` exchanged.
pub open spec fn transpose(s: Seq<char>, i: int) -> Seq<char>
    recommends
        0 <= i,
        i + 1 < s.len(),
{
    s.update(i, s[i + 1]).update(i + 1, s[i])
}

/// `b` arises from `a` by one edit: a character is inserted, removed or
/// replaced, or two neighbours change places. An edit may leave the string as
/// it was, where a character is replaced by itself or changes places with its
/// like; the least number of edits between two strings is none the larger.
pub open spec fn one_edit(a: Seq<char>, b: Seq<char>) -> bool {
    ||| exists|i: int, c: char| 0 <= i <= a.len() && b == #[trigger] a.insert(i, c)
    ||| exists|i: int| 0 <= i < a.len() && b == #[trigger] a.remove(i)
    ||| exists|i: int, c: char| 0 <= i < a.len() && b == #[trigger] a.update(i, c)
    ||| exists|i: int| 0 <= i && i + 1 < a.len() && b == #[trigger] transpose(a, i)
}

/// `b` arises from `a` by exactly `n` edits, one after the other.
pub open spec fn edits_to(a: Seq<char>, b: Seq<char>, n: nat) -> bool
    decreases n,
{
    if n == 0 {
        a == b
    } else {
        exists|m: Seq<char>| #[trigger] one_edit(a, m) && edits_to(m, b, (n - 1) as nat)
    }
}

/// `n` is the least number of edits that turn `a` into `b`.
pub open spec fn is_edit_distance(a: Seq<char>, b: Seq<char>, n: nat) -> bool {
    &&& edits_to(a, b, n)
    &&& forall|k: nat| k < n ==> !edits_to(a, b, k)
}

/// The Damerau–Levenshtein distance of `a` and `b`.
pub open spec fn edit_distance(a: Seq<char>, b: Seq<char>) -> nat {
    choose|n: nat| is_edit_distance(a, b, n)
}

/// Every edit can be undone by one edit.
pub proof fn lemma_one_edit_symmetric(a: Seq<char>, b: Seq<char>)
    requires
        one_edit(a, b),
    ensures
        one_edit(b, a),
{
    if exists|i: int, c: char| 0 <= i <= a.len() && b == #[trigger] a.insert(i, c) {
        let (i, c) = choose|i: int, c: char| 0 <= i <= a.len() && b == #[trigger] a.insert(i, c);
        assert(a =~= b.remove(i));
    } else if exists|i: int| 0 <= i < a.len() && b == #[trigger] a.remove(i) {
        let i = choose|i: int| 0 <= i < a.len() && b == #[trigger] a.remove(i);
        assert(a =~= b.insert(i, a[i]));
    } else if exists|i: int, c: char| 0 <= i < a.len() && b == #[trigger] a.update(i, c) {
        let (i, c) = choose|i: int, c: char| 0 <= i < a.len() && b == #[trigger] a.update(i, c);
        assert(a =~= b.update(i, a[i]));
    } else {
        let i = choose|i: int| 0 <= i && i + 1 < a.len() && b == #[trigger] transpose(a, i);
        assert(a =~= transpose(b, i));
    }
}

/// Edits compose: `n` edits from `a` to `m` and `k` more from `m` to `b` are
/// `n + k` edits from `a` to `b`.
pub proof fn lemma_edits_compose(a: Seq<char>, m: Seq<char>, b: Seq<char>, n: nat, k: nat)
    requires
        edits_to(a, m, n),
        edits_to(m, b, k),
    ensures
        edits_to(a, b, n + k),
    decreases n,
{
    if n > 0 {
        let x = choose|x: Seq<char>| #[trigger] one_edit(a, x) && edits_to(x, m, (n - 1) as nat);
        lemma_edits_compose(x, m, b, (n - 1) as nat, k);
        assert(one_edit(a, x) && edits_to(x, b, (n + k - 1) as nat));
    }
}

/// A chain of edits can be walked backwards.
pub proof fn lemma_edits_symmetric(a: Seq<char>, b: Seq<char>, n: nat)
    requires
        edits_to(a, b, n),
    ensures
        edits_to(b, a, n),
    decreases n,
{
    if n > 0 {
        let x = choose|x: Seq<char>| #[trigger] one_edit(a, x) && edits_to(x, b, (n - 1) as nat);
        lemma_edits_symmetric(x, b, (n - 1) as nat);
        lemma_one_edit_symmetric(a, x);
        assert(one_edit(x, a) && edits_to(a, a, 0));
        assert(edits_to(x, a, 1));
        lemma_edits_compose(b, x, a, (n - 1) as nat, 1);
    }
}

/// Removing its characters one by one empties a string.
proof fn lemma_edits_to_empty(a: Seq<char>)
    ensures
        edits_to(a, Seq::<char>::empty(), a.len()),
    decreases a.len(),
{
    if a.len() > 0 {
        let x = a.remove(0);
        lemma_edits_to_empty(x);
        assert(one_edit(a, x));
        assert(one_edit(a, x) && edits_to(x, Seq::<char>::empty(), (a.len() - 1) as nat));
    } else {
        assert(a =~= Seq::<char>::empty());
    }
}

/// Any string can be turned into any other: remove all of the one, then
/// insert all of the other.
pub proof fn lemma_edits_exist(a: Seq<char>, b: Seq<char>)
    ensures
        edits_to(a, b, a.len() + b.len()),
{
    lemma_edits_to_empty(a);
    lemma_edits_to_empty(b);
    lemma_edits_symmetric(b, Seq::<char>::empty(), b.len());
    lemma_edits_compose(a, Seq::<char>::empty(), b, a.len(), b.len());
}

/// Where some number of edits suffices, a least one does.
proof fn lemma_least_exists(a: Seq<char>, b: Seq<char>, n: nat)
    requires
        edits_to(a, b, n),
    ensures
        exists|d: nat| d <= n && is_edit_distance(a, b, d),
    decreases n,
{
    if exists|k: nat| k < n && edits_to(a, b, k) {
        let k = choose|k: nat| k < n && edits_to(a, b, k);
        lemma_least_exists(a, b, k);
        let d = choose|d: nat| d <= k && is_edit_distance(a, b, d);
        assert(d <= n && is_edit_distance(a, b, d));
    } else {
        assert(is_edit_distance(a, b, n));
    }
}

/// The distance is defined for every pair of strings: it is a number of edits
/// that suffices, no smaller number does, and it is at most the two lengths
/// together.
pub proof fn lemma_edit_distance_defined(a: Seq<char>, b: Seq<char>)
    ensures
        is_edit_distance(a, b, edit_distance(a, b)),
        edit_distance(a, b) <= a.len() + b.len(),
{
    lemma_edits_exist(a, b);
    lemma_least_exists(a, b, a.len() + b.len());
    let d = choose|d: nat| d <= a.len() + b.len() && is_edit_distance(a, b, d);
    lemma_edit_distance_is_least(a, b, d);
}

/// The least number of edits is unique: whatever meets the definition is the
/// distance.
pub proof fn lemma_edit_distance_is_least(a: Seq<char>, b: Seq<char>, n: nat)
    requires
        is_edit_distance(a, b, n),
    ensures
        edit_distance(a, b) == n,
{
    let d = edit_distance(a, b);
    assert(is_edit_distance(a, b, d));
    if d < n {
        assert(!edits_to(a, b, d));
    }
    if n < d {
        assert(!edits_to(a, b, n));
    }
}

/// The distance does not depend on the direction:
/// `edit_distance(a, b) == edit_distance(b, a)`.
pub proof fn lemma_edit_distance_symmetric(a: Seq<char>, b: Seq<char>)
    ensures
        edit_distance(a, b) == edit_distance(b, a),
{
    lemma_edit_distance_defined(a, b);
    lemma_edit_distance_defined(b, a);
    lemma_edits_symmetric(a, b, edit_distance(a, b));
    lemma_edits_symmetric(b, a, edit_distance(b, a));
}

/// The distance is zero for equal strings and for no others.
pub proof fn lemma_edit_distance_zero(a: Seq<char>, b: Seq<char>)
    ensures
        edit_distance(a, b) == 0 <==> a == b,
{
    lemma_edit_distance_defined(a, b);
    if a == b {
        assert(is_edit_distance(a, b, 0));
        lemma_edit_distance_is_least(a, b, 0);
    }
}

/// The triangle inequality: going by way of a third string is never shorter.
pub proof fn lemma_edit_distance_triangle(a: Seq<char>, b: Seq<char>, c: Seq<char>)
    ensures
        edit_distance(a, c) <= edit_distance(a, b) + edit_distance(b, c),
{
    lemma_edit_distance_defined(a, b);
    lemma_edit_distance_defined(b, c);
    lemma_edit_distance_defined(a, c);
    lemma_edits_compose(a, b, c, edit_distance(a, b), edit_distance(b, c));
}

/// Two strings that differ by one edit are at distance one.
pub proof fn lemma_edit_distance_one(a: Seq<char>, b: Seq<char>)
    requires
        one_edit(a, b),
        a != b,
    ensures
        edit_distance(a, b) == 1,
{
    assert(one_edit(a, b) && edits_to(b, b, 0));
    assert(edits_to(a, b, 1));
    assert(is_edit_distance(a, b, 1)) by {
        assert forall|k: nat| k < 1 implies !edits_to(a, b, k) by {
            assert(k == 0);
        }
    }
    lemma_edit_distance_is_least(a, b, 1);
}

/// Exchanging two neighbouring characters that differ gives a string at
/// distance one.
pub proof fn lemma_transposition_distance(a: Seq<char>, i: int)
    requires
        0 <= i,
        i + 1 < a.len(),
        a[i] != a[i + 1],
    ensures
        edit_distance(a, transpose(a, i)) == 1,
        edit_distance(transpose(a, i), a) == 1,
{
    let b = transpose(a, i);
    assert(one_edit(a, b));
    assert(b[i] != a[i]);
    lemma_edit_distance_one(a, b);
    lemma_edit_distance_symmetric(a, b);
}

} // verus!
