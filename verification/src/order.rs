//! The order of strings, and lists that are kept in it: the lexicographic order by
//! code points, in which the tags of an issue are written.

use vstd::prelude::*;
use crate::text::{chars_of, str_eq};

verus! {

/// Whether `a` comes strictly before `b` in the lexicographic order of their
/// characters, a character counting by its code point.
pub open spec fn precedes(a: Seq<char>, b: Seq<char>) -> bool
    decreases a.len(),
{
    if b.len() == 0 {
        false
    } else if a.len() == 0 {
        true
    } else if a[0] != b[0] {
        (a[0] as int) < (b[0] as int)
    } else {
        precedes(a.drop_first(), b.drop_first())
    }
}

/// Whether each string of `v` comes strictly before all that follow it: `v` is
/// sorted and holds nothing twice.
pub open spec fn ascending(v: Seq<Seq<char>>) -> bool {
    forall|i: int, j: int| 0 <= i < j < v.len() ==> precedes(#[trigger] v[i], #[trigger] v[j])
}

/// No string comes before itself.
pub proof fn lemma_precedes_irreflexive(a: Seq<char>)
    ensures
        !precedes(a, a),
    decreases a.len(),
{
    if a.len() > 0 {
        lemma_precedes_irreflexive(a.drop_first());
    }
}

/// Of two different strings one comes before the other.
pub proof fn lemma_precedes_total(a: Seq<char>, b: Seq<char>)
    ensures
        a == b || precedes(a, b) || precedes(b, a),
    decreases a.len(),
{
    if a.len() > 0 && b.len() > 0 && a[0] != b[0] {
        assert(a[0] as int != b[0] as int);
    } else if a.len() > 0 && b.len() > 0 {
        lemma_precedes_total(a.drop_first(), b.drop_first());
        if a.drop_first() == b.drop_first() {
            assert(a =~= seq![a[0]] + a.drop_first());
            assert(b =~= seq![b[0]] + b.drop_first());
        }
    } else if a.len() == 0 && b.len() == 0 {
        assert(a =~= b);
    }
}

/// The order is transitive.
pub proof fn lemma_precedes_transitive(a: Seq<char>, b: Seq<char>, c: Seq<char>)
    requires
        precedes(a, b),
        precedes(b, c),
    ensures
        precedes(a, c),
    decreases a.len(),
{
    if a.len() > 0 && a[0] == b[0] && b[0] == c[0] {
        lemma_precedes_transitive(a.drop_first(), b.drop_first(), c.drop_first());
    }
}

/// Two ascending sequences with the same members are the same sequence: being
/// ascending and having given members determines a sequence.
pub proof fn lemma_ascending_unique(v: Seq<Seq<char>>, w: Seq<Seq<char>>)
    requires
        ascending(v),
        ascending(w),
        forall|t: Seq<char>| v.contains(t) <==> w.contains(t),
    ensures
        v == w,
    decreases v.len(),
{
    if v.len() == 0 {
        if w.len() > 0 {
            assert(w.contains(w[0]));
        }
        assert(v =~= w);
    } else if w.len() == 0 {
        assert(v.contains(v[0]));
    } else {
        // the least member stands first in both
        assert(v.contains(v[0]));
        assert(w.contains(w[0]));
        assert(w.contains(v[0]));
        assert(v.contains(w[0]));
        let i = choose|i: int| 0 <= i < w.len() && w[i] == v[0];
        let j = choose|j: int| 0 <= j < v.len() && v[j] == w[0];
        if i > 0 && j > 0 {
            assert(precedes(w[0], w[i]));
            assert(precedes(v[0], v[j]));
            lemma_precedes_transitive(v[0], w[0], v[0]);
            lemma_precedes_irreflexive(v[0]);
        }
        if i > 0 && j == 0 {
            assert(precedes(w[0], w[i]));
            lemma_precedes_irreflexive(v[0]);
        }
        if i == 0 && j > 0 {
            assert(precedes(v[0], v[j]));
            lemma_precedes_irreflexive(v[0]);
        }
        assert(v[0] == w[0]);
        let vt = v.drop_first();
        let wt = w.drop_first();
        assert forall|t: Seq<char>| vt.contains(t) <==> wt.contains(t) by {
            if vt.contains(t) {
                let k = choose|k: int| 0 <= k < vt.len() && vt[k] == t;
                assert(v[k + 1] == t);
                assert(precedes(v[0], v[k + 1]));
                assert(v.contains(t));
                let m = choose|m: int| 0 <= m < w.len() && w[m] == t;
                if m == 0 {
                    lemma_precedes_irreflexive(t);
                }
                assert(wt[m - 1] == t);
            }
            if wt.contains(t) {
                let k = choose|k: int| 0 <= k < wt.len() && wt[k] == t;
                assert(w[k + 1] == t);
                assert(precedes(w[0], w[k + 1]));
                assert(w.contains(t));
                let m = choose|m: int| 0 <= m < v.len() && v[m] == t;
                if m == 0 {
                    lemma_precedes_irreflexive(t);
                }
                assert(vt[m - 1] == t);
            }
        }
        assert forall|a: int, b: int| 0 <= a < b < vt.len() implies precedes(
            #[trigger] vt[a],
            #[trigger] vt[b],
        ) by {
            assert(precedes(v[a + 1], v[b + 1]));
        }
        assert forall|a: int, b: int| 0 <= a < b < wt.len() implies precedes(
            #[trigger] wt[a],
            #[trigger] wt[b],
        ) by {
            assert(precedes(w[a + 1], w[b + 1]));
        }
        lemma_ascending_unique(vt, wt);
        assert(v =~= seq![v[0]] + vt);
        assert(w =~= seq![w[0]] + wt);
    }
}

/// The members of `v`, sorted, each once.
pub open spec fn ascending_of(v: Seq<Seq<char>>) -> Seq<Seq<char>> {
    choose|w: Seq<Seq<char>>| is_ascending_of(w, v)
}

/// Whether `w` is ascending and has the members of `v`.
pub open spec fn is_ascending_of(w: Seq<Seq<char>>, v: Seq<Seq<char>>) -> bool {
    &&& ascending(w)
    &&& forall|t: Seq<char>| w.contains(t) <==> v.contains(t)
}

/// Only one sequence is ascending with the members of `v`.
pub proof fn lemma_ascending_of(w: Seq<Seq<char>>, v: Seq<Seq<char>>)
    requires
        is_ascending_of(w, v),
    ensures
        w == ascending_of(v),
{
    lemma_ascending_unique(w, ascending_of(v));
}

/// Whether `a` comes strictly before `b`.
pub fn chars_precede(a: &Vec<char>, b: &Vec<char>) -> (r: bool)
    ensures
        r == precedes(a@, b@),
{
    let mut i: usize = 0;
    assert(a@.subrange(0, a@.len() as int) =~= a@);
    assert(b@.subrange(0, b@.len() as int) =~= b@);
    while i < a.len() && i < b.len() && a[i] == b[i]
        invariant
            i <= a.len(),
            i <= b.len(),
            precedes(a@, b@) == precedes(
                a@.subrange(i as int, a@.len() as int),
                b@.subrange(i as int, b@.len() as int),
            ),
        decreases a.len() - i,
    {
        assert(a@.subrange(i as int, a@.len() as int).drop_first() =~= a@.subrange(
            i + 1,
            a@.len() as int,
        ));
        assert(b@.subrange(i as int, b@.len() as int).drop_first() =~= b@.subrange(
            i + 1,
            b@.len() as int,
        ));
        i += 1;
    }
    let ghost x = a@.subrange(i as int, a@.len() as int);
    let ghost y = b@.subrange(i as int, b@.len() as int);
    if i >= b.len() {
        assert(y.len() == 0);
        false
    } else if i >= a.len() {
        assert(x.len() == 0 && y.len() > 0);
        true
    } else {
        assert(x[0] == a[i as int] && y[0] == b[i as int]);
        a[i] < b[i]
    }
}

/// Whether `a` comes strictly before `b`.
pub fn str_precedes(a: &str, b: &str) -> (r: bool)
    ensures
        r == precedes(a@, b@),
{
    let x = chars_of(a);
    let y = chars_of(b);
    chars_precede(&x, &y)
}

/// Whether `item` is one of `list`.
pub fn contains(list: &Vec<String>, item: &str) -> (r: bool)
    ensures
        r == list.deep_view().contains(item@),
{
    let mut i: usize = 0;
    while i < list.len()
        invariant
            i <= list.len(),
            forall|k: int| 0 <= k < i ==> list.deep_view()[k] != item@,
        decreases list.len() - i,
    {
        assert(list.deep_view()[i as int] == list@[i as int]@);
        if str_eq(list[i].as_str(), item) {
            return true;
        }
        i += 1;
    }
    false
}

/// The test that a string differs from `item`.
pub open spec fn differs_from(item: Seq<char>) -> spec_fn(Seq<char>) -> bool {
    |t: Seq<char>| t != item
}

/// The strings of `list` that differ from `item`, in their order.
pub fn without(list: &Vec<String>, item: &str) -> (r: Vec<String>)
    ensures
        r.deep_view() == list.deep_view().filter(differs_from(item@)),
{
    let ghost keep = differs_from(item@);
    let mut out: Vec<String> = Vec::new();
    let mut i: usize = 0;
    assert(list.deep_view().take(0) =~= Seq::<Seq<char>>::empty());
    assert(out.deep_view() =~= Seq::<Seq<char>>::empty());
    while i < list.len()
        invariant
            i <= list.len(),
            keep == differs_from(item@),
            out.deep_view() == list.deep_view().take(i as int).filter(keep),
        decreases list.len() - i,
    {
        let ghost before = out.deep_view();
        let ghost done = list.deep_view().take(i as int);
        assert(list.deep_view().take(i + 1) =~= done.push(list@[i as int]@));
        proof {
            done.lemma_filter_push(list@[i as int]@, keep);
        }
        if !str_eq(list[i].as_str(), item) {
            out.push(list[i].clone());
            assert(out.deep_view() =~= before.push(list@[i as int]@));
        }
        i += 1;
    }
    assert(list.deep_view().take(list.len() as int) =~= list.deep_view());
    out
}

/// Puts `item` into the ascending `list` at its place, unless it is there already.
pub fn insert_ascending(list: &mut Vec<String>, item: String)
    requires
        ascending(old(list).deep_view()),
    ensures
        ascending(final(list).deep_view()),
        forall|t: Seq<char>|
            final(list).deep_view().contains(t) <==> (old(list).deep_view().contains(t) || t
                == item@),
{
    let ghost before = list.deep_view();
    let chars = chars_of(item.as_str());
    let mut at: usize = 0;
    let mut searching = true;
    while searching && at < list.len()
        invariant
            at <= list.len(),
            list.deep_view() == before,
            chars@ == item@,
            forall|k: int| 0 <= k < at ==> precedes(#[trigger] before[k], item@),
            !searching ==> at < list.len() && !precedes(before[at as int], item@),
        decreases list.len() - at + if searching { 1nat } else { 0nat },
    {
        assert(before[at as int] == list@[at as int]@);
        let here = chars_of(list[at].as_str());
        if chars_precede(&here, &chars) {
            at += 1;
        } else {
            searching = false;
        }
    }
    if at < list.len() {
        assert(before[at as int] == list@[at as int]@);
        if str_eq(list[at].as_str(), item.as_str()) {
            assert(before.contains(item@));
            return;
        }
        proof {
            lemma_precedes_total(item@, before[at as int]);
            assert(precedes(item@, before[at as int]));
            assert forall|k: int| at < k < before.len() implies precedes(
                item@,
                #[trigger] before[k],
            ) by {
                assert(precedes(before[at as int], before[k]));
                lemma_precedes_transitive(item@, before[at as int], before[k]);
            }
        }
    }
    list.insert(at, item);
    proof {
        let after = list.deep_view();
        assert(after =~= before.insert(at as int, item@));
        assert forall|i: int, j: int| 0 <= i < j < after.len() implies precedes(
            #[trigger] after[i],
            #[trigger] after[j],
        ) by {
            if j < at {
                assert(precedes(before[i], before[j]));
            } else if j == at {
                assert(precedes(before[i], item@));
            } else if i < at {
                assert(precedes(before[i], before[j - 1]));
            } else if i == at {
                assert(precedes(item@, before[j - 1]));
            } else {
                assert(precedes(before[i - 1], before[j - 1]));
            }
        }
        assert forall|t: Seq<char>| after.contains(t) <==> (before.contains(t) || t
            == item@) by {
            if after.contains(t) {
                let k = choose|k: int| 0 <= k < after.len() && after[k] == t;
                if k < at {
                    assert(before[k] == t);
                } else if k > at {
                    assert(before[k - 1] == t);
                }
            }
            if before.contains(t) {
                let k = choose|k: int| 0 <= k < before.len() && before[k] == t;
                if k < at {
                    assert(after[k] == t);
                } else {
                    assert(after[k + 1] == t);
                }
            }
            if t == item@ {
                assert(after[at as int] == t);
            }
        }
    }
}

/// The strings of `list`, sorted, each once.
pub fn sorted_unique(list: &Vec<String>) -> (r: Vec<String>)
    ensures
        r.deep_view() == ascending_of(list.deep_view()),
        is_ascending_of(r.deep_view(), list.deep_view()),
{
    let mut out: Vec<String> = Vec::new();
    let mut i: usize = 0;
    assert(out.deep_view() =~= Seq::<Seq<char>>::empty());
    while i < list.len()
        invariant
            i <= list.len(),
            ascending(out.deep_view()),
            forall|t: Seq<char>|
                out.deep_view().contains(t) <==> list.deep_view().take(i as int).contains(t),
        decreases list.len() - i,
    {
        let ghost done = list.deep_view().take(i as int);
        let ghost next = list.deep_view().take(i + 1);
        assert(next =~= done.push(list@[i as int]@));
        assert forall|t: Seq<char>| next.contains(t) <==> (done.contains(t) || t
            == list@[i as int]@) by {
            if next.contains(t) {
                let k = choose|k: int| 0 <= k < next.len() && next[k] == t;
                if k < i {
                    assert(done[k] == t);
                }
            }
            if done.contains(t) {
                let k = choose|k: int| 0 <= k < done.len() && done[k] == t;
                assert(next[k] == t);
            }
            if t == list@[i as int]@ {
                assert(next[i as int] == t);
            }
        }
        insert_ascending(&mut out, list[i].clone());
        i += 1;
    }
    assert(list.deep_view().take(list.len() as int) =~= list.deep_view());
    proof {
        lemma_ascending_of(out.deep_view(), list.deep_view());
    }
    out
}

/// The place of `item` in the ascending `w`: the number of strings of `w` that do
/// not come after it.
pub open spec fn place_of(w: Seq<Seq<char>>, item: Seq<char>) -> nat
    decreases w.len(),
{
    if w.len() == 0 || precedes(item, w[0]) {
        0
    } else {
        1 + place_of(w.drop_first(), item)
    }
}

/// What stands before the place of `item` does not come after it, and what stands
/// at the place does.
pub proof fn lemma_place_of(w: Seq<Seq<char>>, item: Seq<char>)
    ensures
        place_of(w, item) <= w.len(),
        forall|i: int| 0 <= i < place_of(w, item) ==> !precedes(item, #[trigger] w[i]),
        place_of(w, item) < w.len() ==> precedes(item, w[place_of(w, item) as int]),
    decreases w.len(),
{
    if w.len() > 0 && !precedes(item, w[0]) {
        let rest = w.drop_first();
        lemma_place_of(rest, item);
        assert forall|i: int| 0 <= i < place_of(w, item) implies !precedes(
            item,
            #[trigger] w[i],
        ) by {
            if i > 0 {
                assert(w[i] == rest[i - 1]);
            }
        }
        if place_of(w, item) < w.len() {
            assert(w[place_of(w, item) as int] == rest[place_of(rest, item) as int]);
        }
    }
}

/// An ascending sequence with one more member is ascending again once the member
/// stands at its place.
pub proof fn lemma_ascending_insert(w: Seq<Seq<char>>, item: Seq<char>)
    requires
        ascending(w),
        !w.contains(item),
    ensures
        ascending(w.insert(place_of(w, item) as int, item)),
{
    lemma_place_of(w, item);
    let at = place_of(w, item) as int;
    let after = w.insert(at, item);
    assert forall|i: int, j: int| 0 <= i < j < after.len() implies precedes(
        #[trigger] after[i],
        #[trigger] after[j],
    ) by {
        if j < at {
            assert(precedes(w[i], w[j]));
        } else if j == at {
            assert(!precedes(item, w[i]));
            assert(w.contains(w[i]));
            lemma_precedes_total(item, w[i]);
        } else if i < at {
            assert(precedes(w[i], w[j - 1]));
        } else if i == at {
            if j - 1 > at {
                assert(precedes(w[at], w[j - 1]));
                lemma_precedes_transitive(item, w[at], w[j - 1]);
            }
        } else {
            assert(precedes(w[i - 1], w[j - 1]));
        }
    }
}

/// Every sequence of strings has its ascending sequence.
pub proof fn lemma_ascending_exists(v: Seq<Seq<char>>)
    ensures
        is_ascending_of(ascending_of(v), v),
    decreases v.len(),
{
    if v.len() == 0 {
        let w = Seq::<Seq<char>>::empty();
        assert(is_ascending_of(w, v));
    } else {
        let before = v.drop_last();
        let item = v.last();
        lemma_ascending_exists(before);
        let w0 = ascending_of(before);
        assert forall|t: Seq<char>| v.contains(t) <==> (before.contains(t) || t == item) by {
            if v.contains(t) {
                let k = choose|k: int| 0 <= k < v.len() && v[k] == t;
                if k < v.len() - 1 {
                    assert(before[k] == t);
                }
            }
            if before.contains(t) {
                let k = choose|k: int| 0 <= k < before.len() && before[k] == t;
                assert(v[k] == t);
            }
            if t == item {
                assert(v[v.len() - 1] == t);
            }
        }
        if w0.contains(item) {
            assert(is_ascending_of(w0, v));
        } else {
            lemma_place_of(w0, item);
            lemma_ascending_insert(w0, item);
            let at = place_of(w0, item) as int;
            let w = w0.insert(at, item);
            assert forall|t: Seq<char>| w.contains(t) <==> (w0.contains(t) || t == item) by {
                if w.contains(t) {
                    let k = choose|k: int| 0 <= k < w.len() && w[k] == t;
                    if k < at {
                        assert(w0[k] == t);
                    } else if k > at {
                        assert(w0[k - 1] == t);
                    }
                }
                if w0.contains(t) {
                    let k = choose|k: int| 0 <= k < w0.len() && w0[k] == t;
                    if k < at {
                        assert(w[k] == t);
                    } else {
                        assert(w[k + 1] == t);
                    }
                }
                if t == item {
                    assert(w[at] == t);
                }
            }
            assert(is_ascending_of(w, v));
        }
    }
}

/// In an ascending sequence nothing stands twice.
pub proof fn lemma_ascending_no_duplicates(v: Seq<Seq<char>>)
    requires
        ascending(v),
    ensures
        v.no_duplicates(),
{
    assert forall|i: int, j: int| 0 <= i < v.len() && 0 <= j < v.len() && i != j implies v[i]
        != v[j] by {
        lemma_precedes_irreflexive(v[i]);
        if i < j {
            assert(precedes(v[i], v[j]));
        } else {
            assert(precedes(v[j], v[i]));
        }
    }
}

} // verus!
