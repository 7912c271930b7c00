//! Orders on strings and paths.
//!
//! Strings are ordered lexicographically by character code, which is the
//! order of their UTF-8 bytes. Paths are ordered component by component: a
//! root comes before `.`, which comes before `..`, which comes before a named
//! component; named components are ordered as strings.

use vstd::prelude::*;
use crate::path::components::{components, cur_component, parent_component, root_component, seqs_of};
use crate::tag_map::tags_distinct;

verus! {

/// Whether `a` comes strictly before `b` in character-code order.
pub open spec fn chars_lt(a: Seq<char>, b: Seq<char>) -> bool
    decreases a.len(),
{
    if b.len() == 0 {
        false
    } else if a.len() == 0 {
        true
    } else if a[0] != b[0] {
        (a[0] as int) < (b[0] as int)
    } else {
        chars_lt(a.drop_first(), b.drop_first())
    }
}

/// No string comes before itself.
pub proof fn lemma_chars_lt_irreflexive(a: Seq<char>)
    ensures
        !chars_lt(a, a),
    decreases a.len(),
{
    if a.len() > 0 {
        lemma_chars_lt_irreflexive(a.drop_first());
    }
}

/// The string order is transitive.
pub proof fn lemma_chars_lt_transitive(a: Seq<char>, b: Seq<char>, c: Seq<char>)
    requires
        chars_lt(a, b),
        chars_lt(b, c),
    ensures
        chars_lt(a, c),
    decreases a.len(),
{
    if a.len() > 0 && b.len() > 0 && c.len() > 0 && a[0] == b[0] && b[0] == c[0] {
        lemma_chars_lt_transitive(a.drop_first(), b.drop_first(), c.drop_first());
    }
}

/// Of two different strings, one comes before the other.
pub proof fn lemma_chars_lt_total(a: Seq<char>, b: Seq<char>)
    requires
        a != b,
    ensures
        chars_lt(a, b) || chars_lt(b, a),
    decreases a.len(),
{
    if a.len() == 0 && b.len() == 0 {
        assert(a =~= b);
    } else if a.len() > 0 && b.len() > 0 {
        if a[0] == b[0] {
            if a.drop_first() == b.drop_first() {
                assert(a =~= seq![a[0]] + a.drop_first());
                assert(b =~= seq![b[0]] + b.drop_first());
            }
            lemma_chars_lt_total(a.drop_first(), b.drop_first());
        } else {
            assert((a[0] as int) != (b[0] as int));
        }
    }
}

/// The string order is asymmetric.
pub proof fn lemma_chars_lt_asymmetric(a: Seq<char>, b: Seq<char>)
    requires
        chars_lt(a, b),
    ensures
        !chars_lt(b, a),
    decreases a.len(),
{
    if a.len() > 0 && b.len() > 0 && a[0] == b[0] {
        lemma_chars_lt_asymmetric(a.drop_first(), b.drop_first());
    }
}

/// The code of a character.
fn char_code(c: char) -> (r: u32)
    ensures
        r == c as int,
{
    c as u32
}

/// Whether `a` comes strictly before `b` in character-code order.
pub fn chars_less(a: &Vec<char>, b: &Vec<char>) -> (r: bool)
    ensures
        r == chars_lt(a@, b@),
{
    assert(a@.skip(0) =~= a@);
    assert(b@.skip(0) =~= b@);
    let mut i: usize = 0;
    while i < a.len() && i < b.len()
        invariant
            i <= a@.len(),
            i <= b@.len(),
            chars_lt(a@, b@) == chars_lt(a@.skip(i as int), b@.skip(i as int)),
        decreases a@.len() - i,
    {
        proof {
            assert(a@.skip(i as int)[0] == a@[i as int]);
            assert(b@.skip(i as int)[0] == b@[i as int]);
            assert(a@.skip(i as int).drop_first() =~= a@.skip(i + 1));
            assert(b@.skip(i as int).drop_first() =~= b@.skip(i + 1));
        }
        if a[i] != b[i] {
            return char_code(a[i]) < char_code(b[i]);
        }
        i = i + 1;
    }
    a.len() < b.len()
}

/// The rank of a component: the root, then `.`, then `..`, then names.
pub open spec fn component_rank(c: Seq<char>) -> int {
    if c == root_component() {
        0
    } else if c == cur_component() {
        1
    } else if c == parent_component() {
        2
    } else {
        3
    }
}

/// Whether component `a` comes strictly before component `b`.
pub open spec fn component_lt(a: Seq<char>, b: Seq<char>) -> bool {
    component_rank(a) < component_rank(b) || (component_rank(a) == component_rank(b) && chars_lt(a, b))
}

/// Whether the component sequence `a` comes strictly before `b`.
pub open spec fn comps_lt(a: Seq<Seq<char>>, b: Seq<Seq<char>>) -> bool
    decreases a.len(),
{
    if b.len() == 0 {
        false
    } else if a.len() == 0 {
        true
    } else if a[0] != b[0] {
        component_lt(a[0], b[0])
    } else {
        comps_lt(a.drop_first(), b.drop_first())
    }
}

/// Whether path `a` comes strictly before path `b`, compared by components.
pub open spec fn path_lt(a: Seq<char>, b: Seq<char>) -> bool {
    comps_lt(components(a), components(b))
}

/// No component sequence comes before itself.
pub proof fn lemma_comps_lt_irreflexive(a: Seq<Seq<char>>)
    ensures
        !comps_lt(a, a),
    decreases a.len(),
{
    if a.len() > 0 {
        lemma_comps_lt_irreflexive(a.drop_first());
    }
}

/// The path order is transitive.
pub proof fn lemma_comps_lt_transitive(a: Seq<Seq<char>>, b: Seq<Seq<char>>, c: Seq<Seq<char>>)
    requires
        comps_lt(a, b),
        comps_lt(b, c),
    ensures
        comps_lt(a, c),
    decreases a.len(),
{
    if a.len() > 0 && b.len() > 0 && c.len() > 0 {
        if a[0] == b[0] && b[0] == c[0] {
            lemma_comps_lt_transitive(a.drop_first(), b.drop_first(), c.drop_first());
        } else if a[0] != b[0] && b[0] != c[0] && component_rank(a[0]) == component_rank(b[0])
            && component_rank(b[0]) == component_rank(c[0]) {
            lemma_chars_lt_transitive(a[0], b[0], c[0]);
            if a[0] == c[0] {
                lemma_chars_lt_asymmetric(a[0], b[0]);
            }
        } else if a[0] != b[0] && b[0] != c[0] && a[0] == c[0] {
            if component_rank(a[0]) == component_rank(b[0]) {
                lemma_chars_lt_asymmetric(a[0], b[0]);
            }
        }
    }
}

/// Of two different component sequences, one comes before the other.
pub proof fn lemma_comps_lt_total(a: Seq<Seq<char>>, b: Seq<Seq<char>>)
    requires
        a != b,
    ensures
        comps_lt(a, b) || comps_lt(b, a),
    decreases a.len(),
{
    if a.len() == 0 && b.len() == 0 {
        assert(a =~= b);
    } else if a.len() > 0 && b.len() > 0 {
        if a[0] == b[0] {
            if a.drop_first() == b.drop_first() {
                assert(a =~= seq![a[0]] + a.drop_first());
                assert(b =~= seq![b[0]] + b.drop_first());
            }
            lemma_comps_lt_total(a.drop_first(), b.drop_first());
        } else if component_rank(a[0]) == component_rank(b[0]) {
            lemma_chars_lt_total(a[0], b[0]);
        }
    }
}

/// The path order is asymmetric.
pub proof fn lemma_comps_lt_asymmetric(a: Seq<Seq<char>>, b: Seq<Seq<char>>)
    requires
        comps_lt(a, b),
    ensures
        !comps_lt(b, a),
    decreases a.len(),
{
    if a.len() > 0 && b.len() > 0 {
        if a[0] == b[0] {
            lemma_comps_lt_asymmetric(a.drop_first(), b.drop_first());
        } else if component_rank(a[0]) == component_rank(b[0]) {
            lemma_chars_lt_asymmetric(a[0], b[0]);
        }
    }
}

fn component_rank_of(c: &Vec<char>) -> (r: u8)
    ensures
        r as int == component_rank(c@),
{
    if c.len() == 1 && c[0] == '/' {
        assert(c@ =~= root_component());
        0
    } else if c.len() == 1 && c[0] == '.' {
        assert(c@ =~= cur_component());
        1
    } else if c.len() == 2 && c[0] == '.' && c[1] == '.' {
        assert(c@ =~= parent_component());
        2
    } else {
        assert(c@ != root_component()) by {
            if c@.len() == 1 { assert(c@[0] != root_component()[0]); }
        }
        assert(c@ != cur_component()) by {
            if c@.len() == 1 { assert(c@[0] != cur_component()[0]); }
        }
        assert(c@ != parent_component()) by {
            if c@.len() == 2 {
                if c@[0] != '.' { assert(c@[0] != parent_component()[0]); }
                else { assert(c@[1] != parent_component()[1]); }
            }
        }
        3
    }
}

/// Whether the component sequence `a` comes strictly before `b`.
pub fn comps_less(a: &Vec<Vec<char>>, b: &Vec<Vec<char>>) -> (r: bool)
    ensures
        r == comps_lt(seqs_of(a@), seqs_of(b@)),
{
    let ghost sa = seqs_of(a@);
    let ghost sb = seqs_of(b@);
    assert(sa.skip(0) =~= sa);
    assert(sb.skip(0) =~= sb);
    let mut i: usize = 0;
    while i < a.len() && i < b.len()
        invariant
            i <= a@.len(),
            i <= b@.len(),
            sa == seqs_of(a@),
            sb == seqs_of(b@),
            comps_lt(sa, sb) == comps_lt(sa.skip(i as int), sb.skip(i as int)),
        decreases a@.len() - i,
    {
        proof {
            assert(sa.skip(i as int)[0] == sa[i as int]);
            assert(sb.skip(i as int)[0] == sb[i as int]);
            assert(sa.skip(i as int).drop_first() =~= sa.skip(i + 1));
            assert(sb.skip(i as int).drop_first() =~= sb.skip(i + 1));
        }
        if !crate::path::components::chars_equal(&a[i], &b[i]) {
            let ra = component_rank_of(&a[i]);
            let rb = component_rank_of(&b[i]);
            if ra != rb {
                return ra < rb;
            }
            return chars_less(&a[i], &b[i]);
        }
        i = i + 1;
    }
    a.len() < b.len()
}

/// Whether two component vectors hold the same components.
pub fn comps_equal(a: &Vec<Vec<char>>, b: &Vec<Vec<char>>) -> (r: bool)
    ensures
        r == (seqs_of(a@) == seqs_of(b@)),
{
    if a.len() != b.len() {
        assert(seqs_of(a@).len() != seqs_of(b@).len());
        return false;
    }
    let mut i: usize = 0;
    while i < a.len()
        invariant
            a@.len() == b@.len(),
            i <= a@.len(),
            forall|j: int| 0 <= j < i ==> seqs_of(a@)[j] == seqs_of(b@)[j],
        decreases a@.len() - i,
    {
        if !crate::path::components::chars_equal(&a[i], &b[i]) {
            assert(seqs_of(a@)[i as int] != seqs_of(b@)[i as int]);
            return false;
        }
        i = i + 1;
    }
    assert(seqs_of(a@) =~= seqs_of(b@));
    true
}

/// `s` with `x` inserted before the first entry whose tag comes after `x`'s.
pub open spec fn insert_by_tag<V>(s: Seq<(Seq<char>, V)>, x: (Seq<char>, V)) -> Seq<(Seq<char>, V)>
    decreases s.len(),
{
    if s.len() == 0 {
        seq![x]
    } else if chars_lt(x.0, s[0].0) {
        seq![x] + s
    } else {
        seq![s[0]] + insert_by_tag(s.drop_first(), x)
    }
}

/// The entries sorted by tag (insertion sort: entries with equal tags keep their order).
pub open spec fn sort_by_tag<V>(s: Seq<(Seq<char>, V)>) -> Seq<(Seq<char>, V)>
    decreases s.len(),
{
    if s.len() == 0 {
        s
    } else {
        insert_by_tag(sort_by_tag(s.drop_last()), s.last())
    }
}

/// Inserting by tag puts `x` at the first position whose tag comes after it.
pub proof fn lemma_insert_by_tag_at<V>(s: Seq<(Seq<char>, V)>, x: (Seq<char>, V), p: int)
    requires
        0 <= p <= s.len(),
        forall|j: int| 0 <= j < p ==> !chars_lt(x.0, (#[trigger] s[j]).0),
        p < s.len() ==> chars_lt(x.0, s[p].0),
    ensures
        insert_by_tag(s, x) == s.insert(p, x),
    decreases s.len(),
{
    if s.len() == 0 {
        assert(s.insert(p, x) =~= seq![x]);
    } else if p == 0 {
        assert(s.insert(0, x) =~= seq![x] + s);
    } else {
        assert(!chars_lt(x.0, s[0].0));
        let t = s.drop_first();
        assert forall|j: int| 0 <= j < p - 1 implies !chars_lt(x.0, (#[trigger] t[j]).0) by {
            assert(t[j] == s[j + 1]);
        }
        lemma_insert_by_tag_at(t, x, p - 1);
        assert(seq![s[0]] + t.insert(p - 1, x) =~= s.insert(p, x));
    }
}

/// Sorting by tag keeps the number of entries.
pub proof fn lemma_sort_by_tag_len<V>(s: Seq<(Seq<char>, V)>)
    ensures
        sort_by_tag(s).len() == s.len(),
    decreases s.len(),
{
    if s.len() > 0 {
        lemma_sort_by_tag_len(s.drop_last());
        lemma_insert_by_tag_len(sort_by_tag(s.drop_last()), s.last());
    }
}

/// Inserting adds one entry.
pub proof fn lemma_insert_by_tag_len<V>(s: Seq<(Seq<char>, V)>, x: (Seq<char>, V))
    ensures
        insert_by_tag(s, x).len() == s.len() + 1,
    decreases s.len(),
{
    if s.len() > 0 && !chars_lt(x.0, s[0].0) {
        lemma_insert_by_tag_len(s.drop_first(), x);
    }
}

/// Whether entries are in tag order (no entry's tag comes before an earlier one's).
pub open spec fn tag_sorted<V>(s: Seq<(Seq<char>, V)>) -> bool {
    forall|i: int, j: int| 0 <= i < j < s.len() ==> !chars_lt((#[trigger] s[j]).0, (#[trigger] s[i]).0)
}

/// An entry's multiset is the multiset without it, plus it.
proof fn lemma_to_multiset_split<A>(t: Seq<A>, i: int)
    requires
        0 <= i < t.len(),
    ensures
        t.to_multiset() == t.remove(i).to_multiset().insert(t[i]),
{
    broadcast use vstd::seq_lib::group_to_multiset_ensures;
    broadcast use vstd::multiset::group_multiset_axioms;
    vstd::seq_lib::to_multiset_remove(t, i);
    assert(t.contains(t[i]));
    assert(t.to_multiset().count(t[i]) > 0);
    assert(t.to_multiset() =~= t.to_multiset().remove(t[i]).insert(t[i]));
}

/// Inserting by tag into sorted entries keeps them sorted and adds exactly the entry.
proof fn lemma_insert_by_tag_sorted<V>(s: Seq<(Seq<char>, V)>, x: (Seq<char>, V))
    requires
        tag_sorted(s),
    ensures
        tag_sorted(insert_by_tag(s, x)),
        insert_by_tag(s, x).to_multiset() == s.to_multiset().insert(x),
    decreases s.len(),
{
    broadcast use vstd::seq_lib::group_to_multiset_ensures;
    broadcast use vstd::multiset::group_multiset_axioms;
    let t = insert_by_tag(s, x);
    if s.len() == 0 {
        assert(t =~= Seq::<(Seq<char>, V)>::empty().push(x));
        assert(s =~= Seq::<(Seq<char>, V)>::empty());
    } else if chars_lt(x.0, s[0].0) {
        assert(t.remove(0) =~= s);
        lemma_to_multiset_split(t, 0);
        assert forall|i: int, j: int| 0 <= i < j < t.len() implies !chars_lt((#[trigger] t[j]).0, (#[trigger] t[i]).0) by {
            if i == 0 {
                let y = s[j - 1];
                assert(t[j] == y);
                if j - 1 == 0 {
                    lemma_chars_lt_asymmetric(x.0, s[0].0);
                } else {
                    assert(!chars_lt(s[j - 1].0, s[0].0));
                    if s[0].0 == y.0 {
                        lemma_chars_lt_asymmetric(x.0, s[0].0);
                    } else {
                        lemma_chars_lt_total(s[0].0, y.0);
                        lemma_chars_lt_transitive(x.0, s[0].0, y.0);
                        lemma_chars_lt_asymmetric(x.0, y.0);
                    }
                }
            } else {
                assert(t[i] == s[i - 1] && t[j] == s[j - 1]);
            }
        }
    } else {
        let df = s.drop_first();
        assert forall|i: int, j: int| 0 <= i < j < df.len() implies !chars_lt((#[trigger] df[j]).0, (#[trigger] df[i]).0) by {
            assert(df[i] == s[i + 1] && df[j] == s[j + 1]);
        }
        lemma_insert_by_tag_sorted(df, x);
        let r = insert_by_tag(df, x);
        assert(t =~= seq![s[0]] + r);
        assert(t.remove(0) =~= r);
        lemma_to_multiset_split(t, 0);
        assert(s.remove(0) =~= df);
        lemma_to_multiset_split(s, 0);
        assert(t.to_multiset() =~= s.to_multiset().insert(x));
        assert forall|i: int, j: int| 0 <= i < j < t.len() implies !chars_lt((#[trigger] t[j]).0, (#[trigger] t[i]).0) by {
            if i == 0 {
                let e = r[j - 1];
                assert(t[j] == e);
                assert(r.contains(e));
                assert(r.to_multiset().count(e) > 0);
                if e != x {
                    assert(df.to_multiset().count(e) > 0);
                    assert(df.contains(e));
                    let m = choose|m: int| 0 <= m < df.len() && df[m] == e;
                    assert(s[m + 1] == e);
                }
            } else {
                assert(t[i] == r[i - 1] && t[j] == r[j - 1]);
            }
        }
    }
}

/// Sorting by tag yields the same entries, each as often, in tag order.
pub proof fn lemma_sort_by_tag_sorted_permutation<V>(s: Seq<(Seq<char>, V)>)
    ensures
        tag_sorted(sort_by_tag(s)),
        sort_by_tag(s).to_multiset() == s.to_multiset(),
    decreases s.len(),
{
    broadcast use vstd::seq_lib::group_to_multiset_ensures;
    if s.len() > 0 {
        lemma_sort_by_tag_sorted_permutation(s.drop_last());
        lemma_insert_by_tag_sorted(sort_by_tag(s.drop_last()), s.last());
        assert(s.drop_last().push(s.last()) =~= s);
    }
}

/// Each entry of the sorted entries is one of the given entries.
pub proof fn lemma_sort_by_tag_member<V>(s: Seq<(Seq<char>, V)>, k: int)
    requires
        0 <= k < sort_by_tag(s).len(),
    ensures
        exists|j: int| 0 <= j < s.len() && s[j] == sort_by_tag(s)[k],
{
    broadcast use vstd::seq_lib::group_to_multiset_ensures;
    lemma_sort_by_tag_sorted_permutation(s);
    let e = sort_by_tag(s)[k];
    assert(sort_by_tag(s).contains(e));
    assert(s.to_multiset().count(e) > 0);
    assert(s.contains(e));
}

/// Inserting by tag puts the entry at some position.
proof fn lemma_insert_by_tag_shape<V>(t: Seq<(Seq<char>, V)>, x: (Seq<char>, V))
    ensures
        exists|p: int| 0 <= p <= t.len() && insert_by_tag(t, x) == t.insert(p, x),
    decreases t.len(),
{
    if t.len() == 0 {
        assert(insert_by_tag(t, x) =~= t.insert(0, x));
    } else if chars_lt(x.0, t[0].0) {
        assert(insert_by_tag(t, x) =~= t.insert(0, x));
    } else {
        let d = t.drop_first();
        lemma_insert_by_tag_shape(d, x);
        let q = choose|q: int| 0 <= q <= d.len() && insert_by_tag(d, x) == d.insert(q, x);
        assert(insert_by_tag(t, x) =~= t.insert(q + 1, x));
    }
}

/// Sorting entries with distinct tags keeps the tags distinct, and in
/// strictly increasing order.
pub proof fn lemma_sort_by_tag_strict<V>(s: Seq<(Seq<char>, V)>)
    requires
        tags_distinct(s),
    ensures
        tags_distinct(sort_by_tag(s)),
        forall|i: int, j: int| 0 <= i < j < sort_by_tag(s).len() ==>
            chars_lt((#[trigger] sort_by_tag(s)[i]).0, (#[trigger] sort_by_tag(s)[j]).0),
    decreases s.len(),
{
    let r = sort_by_tag(s);
    if s.len() > 0 {
        let d = s.drop_last();
        let x = s.last();
        assert(tags_distinct(d)) by {
            assert forall|i: int, j: int| 0 <= i < j < d.len() implies (#[trigger] d[i]).0 != (#[trigger] d[j]).0 by {
                assert(d[i] == s[i] && d[j] == s[j]);
            }
        }
        lemma_sort_by_tag_strict(d);
        let r0 = sort_by_tag(d);
        lemma_sort_by_tag_len(d);
        assert forall|k: int| 0 <= k < r0.len() implies (#[trigger] r0[k]).0 != x.0 by {
            lemma_sort_by_tag_member(d, k);
            let j = choose|j: int| 0 <= j < d.len() && d[j] == r0[k];
            assert(s[j] == d[j] && s[s.len() - 1] == x);
        }
        lemma_insert_by_tag_shape(r0, x);
        let p = choose|p: int| 0 <= p <= r0.len() && insert_by_tag(r0, x) == r0.insert(p, x);
        assert(r == r0.insert(p, x));
        assert forall|i: int, j: int| 0 <= i < j < r.len() implies (#[trigger] r[i]).0 != (#[trigger] r[j]).0 by {
            if i < p {
                assert(r[i] == r0[i]);
            } else if i > p {
                assert(r[i] == r0[i - 1]);
            }
            if j < p {
                assert(r[j] == r0[j]);
            } else if j > p {
                assert(r[j] == r0[j - 1]);
            }
        }
    }
    lemma_sort_by_tag_sorted_permutation(s);
    assert forall|i: int, j: int| 0 <= i < j < r.len() implies chars_lt((#[trigger] r[i]).0, (#[trigger] r[j]).0) by {
        assert(!chars_lt(r[j].0, r[i].0));
        assert(r[i].0 != r[j].0);
        lemma_chars_lt_total(r[i].0, r[j].0);
    }
}

} // verus!
