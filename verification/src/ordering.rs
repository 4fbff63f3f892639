//! Ordering by name: the order of `str`'s comparison, and a stable sort
//! expressed as the place each item takes.

use crate::text::{chars_of, lemma_seqs_of_push, seqs_of, strings_of};
use vstd::prelude::*;

verus! {

/// `a` comes before `b` in the order in which `str` compares: character by
/// character, a proper prefix first.
pub open spec fn str_less(a: Seq<char>, b: Seq<char>) -> bool
    decreases a.len(),
{
    if a.len() == 0 {
        b.len() > 0
    } else if b.len() == 0 {
        false
    } else if a[0] < b[0] {
        true
    } else if a[0] == b[0] {
        str_less(a.drop_first(), b.drop_first())
    } else {
        false
    }
}

/// No string comes before itself.
pub proof fn lemma_str_less_irreflexive(a: Seq<char>)
    ensures
        !str_less(a, a),
    decreases a.len(),
{
    if a.len() > 0 {
        lemma_str_less_irreflexive(a.drop_first());
    }
}

/// The order is transitive.
pub proof fn lemma_str_less_transitive(a: Seq<char>, b: Seq<char>, c: Seq<char>)
    requires
        str_less(a, b),
        str_less(b, c),
    ensures
        str_less(a, c),
    decreases a.len(),
{
    if a.len() > 0 && b.len() > 0 && c.len() > 0 && a[0] == b[0] && b[0] == c[0] {
        lemma_str_less_transitive(a.drop_first(), b.drop_first(), c.drop_first());
    }
}

/// Of two different strings, one comes before the other.
pub proof fn lemma_str_less_total(a: Seq<char>, b: Seq<char>)
    requires
        a != b,
    ensures
        str_less(a, b) || str_less(b, a),
    decreases a.len(),
{
    if a.len() > 0 && b.len() > 0 && a[0] == b[0] {
        if a.drop_first() == b.drop_first() {
            assert(a =~= seq![a[0]] + a.drop_first());
            assert(b =~= seq![b[0]] + b.drop_first());
        }
        lemma_str_less_total(a.drop_first(), b.drop_first());
    } else if a.len() == 0 && b.len() == 0 {
        assert(a =~= b);
    }
}

/// Whether `a` comes before `b`.
pub fn str_less_exec(a: &Vec<char>, b: &Vec<char>) -> (r: bool)
    ensures
        r == str_less(a@, b@),
{
    let mut i: usize = 0;
    assert(a@.skip(0) =~= a@);
    assert(b@.skip(0) =~= b@);
    while i < a.len() && i < b.len()
        invariant
            i <= a.len(),
            i <= b.len(),
            str_less(a@, b@) == str_less(a@.skip(i as int), b@.skip(i as int)),
        decreases a.len() - i,
    {
        let (x, y) = (a[i], b[i]);
        assert(a@.skip(i as int)[0] == x && b@.skip(i as int)[0] == y);
        if x < y {
            return true;
        } else if x != y {
            return false;
        }
        assert(a@.skip(i as int).drop_first() =~= a@.skip(i + 1));
        assert(b@.skip(i as int).drop_first() =~= b@.skip(i + 1));
        i = i + 1;
    }
    assert(a@.skip(i as int).len() == 0 || b@.skip(i as int).len() == 0);
    i == a.len() && i < b.len()
}

// ---------------------------------------------------------------------------
// Stable order by name
// ---------------------------------------------------------------------------

/// Item `k` goes before item `i`: its name comes first, or the names are
/// equal and it came first.
pub open spec fn goes_before(names: Seq<Seq<char>>, k: int, i: int) -> bool {
    str_less(names[k], names[i]) || (names[k] == names[i] && k < i)
}

/// How many of the first `n` items go before item `i`.
pub open spec fn count_before(names: Seq<Seq<char>>, i: int, n: int) -> nat
    decreases n,
{
    if n <= 0 {
        0
    } else {
        count_before(names, i, n - 1) + if goes_before(names, n - 1, i) {
            1nat
        } else {
            0nat
        }
    }
}

/// The place of item `i` once the items are sorted by name, stably.
pub open spec fn name_rank(names: Seq<Seq<char>>, i: int) -> nat {
    count_before(names, i, names.len() as int)
}

/// `goes_before` is transitive.
proof fn lemma_goes_before_transitive(names: Seq<Seq<char>>, a: int, b: int, c: int)
    requires
        goes_before(names, a, b),
        goes_before(names, b, c),
    ensures
        goes_before(names, a, c),
{
    if str_less(names[a], names[b]) && str_less(names[b], names[c]) {
        lemma_str_less_transitive(names[a], names[b], names[c]);
    }
}

/// An item that goes before another has a strictly smaller place.
proof fn lemma_rank_increasing(names: Seq<Seq<char>>, k: int, i: int, n: int)
    requires
        0 <= k < names.len(),
        0 <= i < names.len(),
        0 <= n <= names.len(),
        goes_before(names, k, i),
    ensures
        count_before(names, i, n) >= count_before(names, k, n) + (if k < n {
            1nat
        } else {
            0nat
        }),
    decreases n,
{
    if n > 0 {
        lemma_rank_increasing(names, k, i, n - 1);
        if goes_before(names, n - 1, k) {
            lemma_goes_before_transitive(names, n - 1, k, i);
        }
        if n - 1 == k {
            lemma_str_less_irreflexive(names[k]);
        }
    }
}

/// No item goes before itself, so places are below the number of items.
proof fn lemma_rank_bound(names: Seq<Seq<char>>, i: int, n: int)
    requires
        0 <= i < names.len(),
        0 <= n <= names.len(),
    ensures
        count_before(names, i, n) <= (if i < n {
            n - 1
        } else {
            n
        }),
    decreases n,
{
    if n > 0 {
        lemma_rank_bound(names, i, n - 1);
        if n - 1 == i {
            lemma_str_less_irreflexive(names[i]);
        }
    }
}

/// Sorting by name places the items in distinct places below their number,
/// and an item whose name comes first is placed first.
pub proof fn lemma_name_rank(names: Seq<Seq<char>>, i: int, k: int)
    requires
        0 <= i < names.len(),
        0 <= k < names.len(),
    ensures
        name_rank(names, i) < names.len(),
        i != k ==> name_rank(names, i) != name_rank(names, k),
        str_less(names[i], names[k]) ==> name_rank(names, i) < name_rank(names, k),
        names[i] == names[k] && i < k ==> name_rank(names, i) < name_rank(names, k),
{
    lemma_rank_bound(names, i, names.len() as int);
    lemma_str_less_irreflexive(names[i]);
    if i != k {
        if names[i] != names[k] {
            lemma_str_less_total(names[i], names[k]);
        }
        if goes_before(names, i, k) {
            lemma_rank_increasing(names, i, k, names.len() as int);
        } else {
            lemma_rank_increasing(names, k, i, names.len() as int);
        }
    }
}

/// Every place is taken: sorting by name puts some item at each place, so
/// the sorted items are the input items, rearranged.
pub proof fn lemma_name_rank_onto(names: Seq<Seq<char>>, k: int)
    requires
        0 <= k < names.len(),
    ensures
        exists|i: int| 0 <= i < names.len() && name_rank(names, i) == k,
{
    let n = names.len() as int;
    let places = vstd::set_lib::set_int_range(0, n);
    vstd::set_lib::lemma_int_range(0, n);
    let f = |i: int| name_rank(names, i) as int;
    assert(vstd::relations::injective_on(f, places)) by {
        assert forall|a: int, b: int|
            places.contains(a) && places.contains(b) && #[trigger] f(a) == #[trigger] f(b) implies a
            == b by {
            lemma_name_rank(names, a, b);
        }
    }
    let taken = places.map(f);
    vstd::set_lib::lemma_map_size(places, taken, f);
    assert(taken.subset_of(places)) by {
        assert forall|p: int| taken.contains(p) implies places.contains(p) by {
            let i = choose|i: int| places.contains(i) && f(i) == p;
            lemma_name_rank(names, i, i);
        }
    }
    vstd::set_lib::lemma_subset_equality(taken, places);
    assert(taken.contains(k));
    let i = choose|i: int| places.contains(i) && f(i) == k;
    assert(0 <= i < n && name_rank(names, i) == k);
}

/// The place of item `i` once the items are sorted by name.
pub fn name_rank_exec(names: &Vec<Vec<char>>, i: usize) -> (r: usize)
    requires
        i < names.len(),
    ensures
        r == name_rank(seqs_of(names@), i as int),
        r < names.len(),
{
    let ghost ns = seqs_of(names@);
    let mut count: usize = 0;
    let mut n: usize = 0;
    while n < names.len()
        invariant
            n <= names.len(),
            i < names.len(),
            ns == seqs_of(names@),
            count == count_before(ns, i as int, n as int),
            count <= n,
        decreases names.len() - n,
    {
        let less = str_less_exec(&names[n], &names[i]);
        let same = n < i && crate::text::chars_eq(&names[n], &names[i]);
        if less || same {
            count = count + 1;
        }
        n = n + 1;
    }
    proof {
        lemma_rank_bound(ns, i as int, names.len() as int);
    }
    count
}

/// The characters of each string.
pub fn chars_of_each(v: &Vec<String>) -> (r: Vec<Vec<char>>)
    ensures
        seqs_of(r@) == strings_of(v@),
{
    let mut r: Vec<Vec<char>> = Vec::new();
    let mut i: usize = 0;
    while i < v.len()
        invariant
            i <= v.len(),
            seqs_of(r@) == strings_of(v@).take(i as int),
        decreases v.len() - i,
    {
        let c = chars_of(v[i].as_str());
        proof {
            lemma_seqs_of_push(r@, c);
        }
        r.push(c);
        assert(seqs_of(r@) =~= strings_of(v@).take(i + 1));
        i = i + 1;
    }
    assert(strings_of(v@).take(v.len() as int) =~= strings_of(v@));
    r
}

/// The strings sorted as `str` compares them: string `i` of the input is at
/// place `name_rank(strings_of(v), i)`.
pub fn sort_strings(v: &Vec<String>) -> (r: Vec<String>)
    ensures
        r@.len() == v@.len(),
        forall|i: int|
            0 <= i < v@.len() ==> r@[name_rank(strings_of(v@), i) as int] == #[trigger] v@[i],
{
    let n = v.len();
    let names = chars_of_each(v);
    let ghost ns = strings_of(v@);
    let mut r: Vec<String> = Vec::new();
    let mut k: usize = 0;
    while k < n
        invariant
            k <= n,
            r@.len() == k,
        decreases n - k,
    {
        r.push(String::new());
        k = k + 1;
    }
    let mut i: usize = 0;
    while i < n
        invariant
            i <= n,
            n == v.len(),
            r@.len() == n,
            seqs_of(names@) == ns,
            ns == strings_of(v@),
            forall|j: int| 0 <= j < i ==> r@[name_rank(ns, j) as int] == #[trigger] v@[j],
        decreases n - i,
    {
        let slot = name_rank_exec(&names, i);
        proof {
            assert forall|j: int| 0 <= j < i implies name_rank(ns, j) != slot as int && name_rank(
                ns,
                j,
            ) < n by {
                lemma_name_rank(ns, j, i as int);
            }
        }
        let ghost before = r@;
        r.set(slot, v[i].clone());
        assert(forall|j: int|
            0 <= j < i ==> r@[name_rank(ns, j) as int] == before[name_rank(ns, j) as int]);
        i = i + 1;
    }
    r
}

} // verus!
