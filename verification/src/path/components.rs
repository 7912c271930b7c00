//! The component model of Unix-style path strings.
//!
//! A path string is split at `/` into pieces. Its components are the root
//! marker `/` (for absolute paths) or a leading `.` (for paths written as
//! `./...`), followed by every piece that is neither empty nor `.`. Two paths
//! denote the same location for comparison purposes exactly when their
//! component sequences are equal.

use vstd::prelude::*;

verus! {

/// The pieces of `s` between `/` separators (always at least one piece).
pub open spec fn pieces(s: Seq<char>) -> Seq<Seq<char>>
    decreases s.len(),
{
    if s.len() == 0 {
        seq![Seq::<char>::empty()]
    } else {
        let p = pieces(s.drop_last());
        if s.last() == '/' {
            p.push(Seq::<char>::empty())
        } else {
            p.update(p.len() - 1, p.last().push(s.last()))
        }
    }
}

/// Whether a piece becomes a component: it is non-empty and not `.`.
pub open spec fn kept_piece(p: Seq<char>) -> bool {
    p.len() > 0 && p != seq!['.']
}

/// The pieces that become components, in order.
pub open spec fn kept(ps: Seq<Seq<char>>) -> Seq<Seq<char>>
    decreases ps.len(),
{
    if ps.len() == 0 {
        Seq::empty()
    } else if kept_piece(ps.last()) {
        kept(ps.drop_last()).push(ps.last())
    } else {
        kept(ps.drop_last())
    }
}

/// Whether `s` is an absolute path (starts at the root).
pub open spec fn is_absolute(s: Seq<char>) -> bool {
    s.len() > 0 && s[0] == '/'
}

/// The root marker component.
pub open spec fn root_component() -> Seq<char> {
    seq!['/']
}

/// The current-directory marker component.
pub open spec fn cur_component() -> Seq<char> {
    seq!['.']
}

/// The parent-directory component.
pub open spec fn parent_component() -> Seq<char> {
    seq!['.', '.']
}

/// The components of path `s`.
pub open spec fn components(s: Seq<char>) -> Seq<Seq<char>> {
    let lead: Seq<Seq<char>> = if is_absolute(s) {
        seq![root_component()]
    } else if pieces(s)[0] == cur_component() {
        seq![cur_component()]
    } else {
        Seq::empty()
    };
    lead + kept(pieces(s))
}

/// Every component of a path is non-empty, and only the first may be `/` or `.`.
pub open spec fn well_formed_components(cs: Seq<Seq<char>>) -> bool {
    forall|i: int| 0 <= i < cs.len() ==> {
        &&& (#[trigger] cs[i]).len() > 0
        &&& (i > 0 ==> cs[i] != root_component() && cs[i] != cur_component())
        &&& (cs[i] != root_component() ==> !cs[i].contains('/'))
    }
}

/// `pieces` never returns an empty sequence, and no piece holds a separator.
pub proof fn lemma_pieces_shape(s: Seq<char>)
    ensures
        pieces(s).len() >= 1,
        forall|i: int| 0 <= i < pieces(s).len() ==> !(#[trigger] pieces(s)[i]).contains('/'),
    decreases s.len(),
{
    if s.len() > 0 {
        lemma_pieces_shape(s.drop_last());
        let p = pieces(s.drop_last());
        if s.last() != '/' {
            assert forall|i: int| 0 <= i < pieces(s).len() implies !(#[trigger] pieces(s)[i]).contains('/') by {
                if i == p.len() - 1 {
                    let q = p.last().push(s.last());
                    if q.contains('/') {
                        let k = choose|k: int| 0 <= k < q.len() && q[k] == '/';
                        if k < q.len() - 1 {
                            assert(p.last()[k] == '/');
                            assert(p.last().contains('/'));
                        }
                    }
                } else {
                    assert(pieces(s)[i] == p[i]);
                }
            }
        } else {
            assert forall|i: int| 0 <= i < pieces(s).len() implies !(#[trigger] pieces(s)[i]).contains('/') by {
                if i < p.len() {
                    assert(pieces(s)[i] == p[i]);
                }
            }
        }
    }
}

/// Every kept piece comes from the input and is a real component.
pub proof fn lemma_kept_shape(ps: Seq<Seq<char>>)
    ensures
        forall|i: int| 0 <= i < kept(ps).len() ==> kept_piece(#[trigger] kept(ps)[i])
            && ps.contains(kept(ps)[i]),
        kept(ps).len() <= ps.len(),
    decreases ps.len(),
{
    if ps.len() > 0 {
        lemma_kept_shape(ps.drop_last());
        let k = kept(ps.drop_last());
        assert forall|i: int| 0 <= i < kept(ps).len() implies kept_piece(#[trigger] kept(ps)[i])
            && ps.contains(kept(ps)[i]) by {
            if i < k.len() {
                assert(kept(ps)[i] == k[i]);
                let j = choose|j: int| 0 <= j < ps.drop_last().len() && ps.drop_last()[j] == k[i];
                assert(ps[j] == k[i]);
            } else {
                assert(ps[ps.len() - 1] == ps.last());
            }
        }
    }
}

/// The components of any path are well formed.
pub proof fn lemma_components_well_formed(s: Seq<char>)
    ensures
        well_formed_components(components(s)),
{
    lemma_pieces_shape(s);
    lemma_kept_shape(pieces(s));
    let cs = components(s);
    let ks = kept(pieces(s));
    assert forall|i: int| 0 <= i < cs.len() implies {
        &&& (#[trigger] cs[i]).len() > 0
        &&& (i > 0 ==> cs[i] != root_component() && cs[i] != cur_component())
        &&& (cs[i] != root_component() ==> !cs[i].contains('/'))
    } by {
        let lead_len = cs.len() - ks.len();
        if i >= lead_len {
            let k = ks[i - lead_len];
            assert(cs[i] == k);
            assert(kept_piece(k));
            let j = choose|j: int| 0 <= j < pieces(s).len() && pieces(s)[j] == k;
            assert(!pieces(s)[j].contains('/'));
            if k == root_component() {
                assert(k.contains('/')) by { assert(k[0] == '/'); }
            }
        } else {
            if cs[i] == cur_component() {
                assert(!cs[i].contains('/'));
            }
        }
    }
}

/// Appending text without separators extends the last piece.
proof fn lemma_pieces_append_plain(s: Seq<char>, t: Seq<char>)
    requires
        !t.contains('/'),
    ensures
        pieces(s + t) == pieces(s).update(pieces(s).len() - 1, pieces(s).last() + t),
    decreases t.len(),
{
    lemma_pieces_shape(s);
    if t.len() == 0 {
        assert(s + t =~= s);
        assert(pieces(s).last() + t =~= pieces(s).last());
        assert(pieces(s).update(pieces(s).len() - 1, pieces(s).last()) =~= pieces(s));
    } else {
        let t0 = t.drop_last();
        assert(!t0.contains('/')) by {
            if t0.contains('/') {
                let k = choose|k: int| 0 <= k < t0.len() && t0[k] == '/';
                assert(t[k] == '/');
            }
        }
        assert(t.last() != '/') by {
            assert(t[t.len() - 1] == t.last());
        }
        lemma_pieces_append_plain(s, t0);
        assert((s + t).drop_last() =~= s + t0);
        assert((s + t).last() == t.last());
        lemma_pieces_shape(s + t0);
        assert(pieces(s).last() + t0 + seq![t.last()] =~= pieces(s).last() + t);
        assert((pieces(s).last() + t0).push(t.last()) =~= pieces(s).last() + t);
        assert(pieces(s + t) =~= pieces(s).update(pieces(s).len() - 1, pieces(s).last() + t));
    }
}

/// The pieces of `s`, a separator, and names joined by separators are those
/// of `s` followed by the names.
proof fn lemma_pieces_join(s: Seq<char>, ns: Seq<Seq<char>>)
    requires
        ns.len() >= 1,
        forall|i: int| 0 <= i < ns.len() ==> !(#[trigger] ns[i]).contains('/'),
    ensures
        pieces(s + seq!['/'] + join_slash(ns)) == pieces(s) + ns,
    decreases ns.len(),
{
    if ns.len() == 1 {
        let u = s.push('/');
        assert(u.drop_last() =~= s);
        assert(pieces(u) == pieces(s).push(Seq::<char>::empty()));
        lemma_pieces_append_plain(u, ns[0]);
        assert(s + seq!['/'] + join_slash(ns) =~= u + ns[0]);
        assert(Seq::<char>::empty() + ns[0] =~= ns[0]);
        assert(pieces(u).update(pieces(u).len() - 1, pieces(u).last() + ns[0]) =~= pieces(s) + ns);
    } else {
        let dl = ns.drop_last();
        let u = s + seq!['/'] + join_slash(dl);
        lemma_pieces_join(s, dl);
        lemma_pieces_join(u, seq![ns.last()]);
        assert(join_slash(seq![ns.last()]) == ns.last());
        assert(s + seq!['/'] + join_slash(ns) =~= u + seq!['/'] + join_slash(seq![ns.last()]));
        assert(pieces(u) + seq![ns.last()] =~= pieces(s) + ns);
    }
}

/// Without empty or `.` pieces, keeping pieces keeps them all.
proof fn lemma_kept_all(ps: Seq<Seq<char>>)
    requires
        forall|i: int| 0 <= i < ps.len() ==> kept_piece(#[trigger] ps[i]),
    ensures
        kept(ps) == ps,
    decreases ps.len(),
{
    if ps.len() > 0 {
        lemma_kept_all(ps.drop_last());
        assert(ps.drop_last().push(ps.last()) =~= ps);
    }
}

/// An empty first piece is dropped.
proof fn lemma_kept_leading_empty(ns: Seq<Seq<char>>)
    requires
        forall|i: int| 0 <= i < ns.len() ==> kept_piece(#[trigger] ns[i]),
    ensures
        kept(seq![Seq::<char>::empty()] + ns) == ns,
    decreases ns.len(),
{
    let ps = seq![Seq::<char>::empty()] + ns;
    if ns.len() == 0 {
        assert(ps.drop_last() =~= Seq::<Seq<char>>::empty());
        assert(!kept_piece(ps.last()));
        assert(kept(ps) == kept(ps.drop_last()));
        assert(kept(ps) =~= ns);
    } else {
        lemma_kept_leading_empty(ns.drop_last());
        assert(ps.drop_last() =~= seq![Seq::<char>::empty()] + ns.drop_last());
        assert(ps.last() == ns.last());
        assert(ns.drop_last().push(ns.last()) =~= ns);
    }
}

/// Whether `r` is an absolute component sequence of named components: the
/// root, then components that are non-empty, neither `.` nor `..`, and free
/// of separators.
pub open spec fn plain_absolute(r: Seq<Seq<char>>) -> bool {
    &&& r.len() >= 1
    &&& r[0] == root_component()
    &&& forall|i: int| 1 <= i < r.len() ==> {
        &&& (#[trigger] r[i]).len() > 0
        &&& r[i] != cur_component()
        &&& r[i] != parent_component()
        &&& !r[i].contains('/')
    }
}

/// Rendering an absolute sequence of named components and splitting the
/// result gives the sequence back.
pub proof fn lemma_components_render(r: Seq<Seq<char>>)
    requires
        plain_absolute(r),
    ensures
        components(render(r)) == r,
        is_absolute(render(r)),
{
    let ns = r.drop_first();
    let s = render(r);
    assert(s == seq!['/'] + join_slash(ns));
    assert forall|i: int| 0 <= i < ns.len() implies kept_piece(#[trigger] ns[i]) by {
        assert(ns[i] == r[i + 1]);
    }
    if ns.len() == 0 {
        let e = Seq::<char>::empty();
        assert(join_slash(ns) =~= e);
        assert(s =~= seq!['/']);
        assert(s.len() == 1 && s.last() == '/');
        assert(s.drop_last() =~= e);
        assert(pieces(e) == seq![e]);
        assert(pieces(s) == pieces(s.drop_last()).push(e));
        assert(pieces(s) =~= seq![e, e]);
        let ps = pieces(s);
        assert(ps.drop_last() =~= seq![e]);
        assert(seq![e].drop_last() =~= Seq::<Seq<char>>::empty());
        assert(!kept_piece(e));
        assert(kept(seq![e]) == kept(Seq::<Seq<char>>::empty()));
        assert(kept(ps) == kept(ps.drop_last()));
        assert(kept(ps) =~= Seq::<Seq<char>>::empty());
        assert(is_absolute(s));
        assert(components(s) =~= r);
    } else {
        assert forall|i: int| 0 <= i < ns.len() implies !(#[trigger] ns[i]).contains('/') by {
            assert(ns[i] == r[i + 1]);
        }
        lemma_pieces_join(Seq::<char>::empty(), ns);
        assert(Seq::<char>::empty() + seq!['/'] + join_slash(ns) =~= s);
        assert(pieces(Seq::<char>::empty()) == seq![Seq::<char>::empty()]);
        lemma_kept_leading_empty(ns);
        assert(components(s) =~= seq![root_component()] + ns);
        assert(seq![root_component()] + ns =~= r);
    }
}

/// A name: a non-empty component that is neither `.` nor `..` and holds no separator.
pub open spec fn is_name(n: Seq<char>) -> bool {
    n.len() > 0 && n != cur_component() && n != parent_component() && !n.contains('/')
}

/// Joining a name below a non-empty path adds it as the last component.
pub proof fn lemma_components_join_name(s: Seq<char>, n: Seq<char>)
    requires
        s.len() > 0,
        is_name(n),
    ensures
        components(s + seq!['/'] + n) == components(s).push(n),
{
    let t = s + seq!['/'] + n;
    lemma_pieces_join(s, seq![n]);
    assert(join_slash(seq![n]) == n);
    assert(pieces(t) == pieces(s) + seq![n]);
    lemma_pieces_shape(s);
    assert(pieces(t)[0] == pieces(s)[0]);
    assert(t[0] == s[0]);
    assert(is_absolute(t) == is_absolute(s));
    assert(pieces(s) + seq![n] =~= pieces(s).push(n));
    assert(kept_piece(n));
    assert(pieces(s).push(n).drop_last() =~= pieces(s));
    assert(kept(pieces(t)) == kept(pieces(s)).push(n));
    let lead: Seq<Seq<char>> = if is_absolute(s) {
        seq![root_component()]
    } else if pieces(s)[0] == cur_component() {
        seq![cur_component()]
    } else {
        Seq::empty()
    };
    assert(components(s) == lead + kept(pieces(s)));
    assert(components(t) == lead + kept(pieces(t)));
    assert(lead + kept(pieces(s)).push(n) =~= (lead + kept(pieces(s))).push(n));
}

/// A lone name is a path of one component; the empty path has none; the
/// root alone is the root component.
pub proof fn lemma_components_small(n: Seq<char>)
    requires
        is_name(n),
    ensures
        components(n) == seq![n],
        components(Seq::<char>::empty()) == Seq::<Seq<char>>::empty(),
        components(seq!['/']) == seq![root_component()],
        components(seq!['/'] + n) == seq![root_component(), n],
{
    let e = Seq::<char>::empty();
    lemma_pieces_append_plain(e, n);
    assert(e + n =~= n);
    assert(pieces(e) == seq![e]);
    assert(pieces(n) =~= seq![n]);
    assert(n[0] != '/') by {
        assert(n.contains(n[0]));
    }
    assert(kept(seq![n]) == kept(seq![n].drop_last()).push(n));
    assert(seq![n].drop_last() =~= Seq::<Seq<char>>::empty());
    assert(components(n) =~= seq![n]);
    assert(!kept_piece(e));
    assert(kept(seq![e]) == kept(seq![e].drop_last()));
    assert(seq![e].drop_last() =~= Seq::<Seq<char>>::empty());
    assert(components(e) =~= Seq::<Seq<char>>::empty());
    lemma_components_render(seq![root_component()]);
    assert(render(seq![root_component()]) =~= seq!['/']) by {
        assert(seq![root_component()].drop_first() =~= Seq::<Seq<char>>::empty());
    }
    let r = seq![root_component(), n];
    assert(plain_absolute(r)) by {
        assert(r[1] == n);
    }
    lemma_components_render(r);
    assert(render(r) =~= seq!['/'] + n) by {
        assert(r.drop_first() =~= seq![n]);
        assert(join_slash(seq![n]) == n);
    }
}

/// Renders components back to a path string: the root marker is followed
/// directly by the remaining components joined with `/`.
pub open spec fn render(cs: Seq<Seq<char>>) -> Seq<char> {
    if cs.len() > 0 && cs[0] == root_component() {
        seq!['/'] + join_slash(cs.drop_first())
    } else {
        join_slash(cs)
    }
}

/// The components joined with single `/` separators.
pub open spec fn join_slash(cs: Seq<Seq<char>>) -> Seq<char>
    decreases cs.len(),
{
    if cs.len() == 0 {
        Seq::empty()
    } else if cs.len() == 1 {
        cs[0]
    } else {
        join_slash(cs.drop_last()) + seq!['/'] + cs.last()
    }
}

/// The view of a vector of character vectors as a sequence of character sequences.
pub open spec fn seqs_of(v: Seq<Vec<char>>) -> Seq<Seq<char>> {
    v.map_values(|x: Vec<char>| x@)
}

/// Whether two character vectors hold the same characters.
pub fn chars_equal(a: &Vec<char>, b: &Vec<char>) -> (r: bool)
    ensures
        r == (a@ == b@),
{
    if a.len() != b.len() {
        return false;
    }
    let mut i: usize = 0;
    while i < a.len()
        invariant
            a@.len() == b@.len(),
            i <= a@.len(),
            forall|j: int| 0 <= j < i ==> a@[j] == b@[j],
        decreases a@.len() - i,
    {
        if a[i] != b[i] {
            return false;
        }
        i = i + 1;
    }
    assert(a@ =~= b@);
    true
}

fn is_dot(v: &Vec<char>) -> (r: bool)
    ensures
        r == (v@ == cur_component()),
{
    let r = v.len() == 1 && v[0] == '.';
    if r {
        assert(v@ =~= cur_component());
    }
    r
}

/// Splits a path into its components.
pub fn path_components(path: &str) -> (cs: Vec<Vec<char>>)
    ensures
        seqs_of(cs@) == components(path@),
{
    let chars = crate::text::chars_of(path);
    let n = chars.len();
    let ghost s = chars@;
    let mut kept_v: Vec<Vec<char>> = Vec::new();
    let mut cur: Vec<char> = Vec::new();
    let mut first_done = false;
    let mut first_is_dot = false;
    let mut i: usize = 0;
    proof {
        assert(s.take(0) =~= Seq::<char>::empty());
    }
    while i < n
        invariant
            n == s.len(),
            s == path@,
            i <= n,
            pieces(s.take(i as int)).len() >= 1,
            cur@ == pieces(s.take(i as int)).last(),
            seqs_of(kept_v@) == kept(pieces(s.take(i as int)).drop_last()),
            !first_done ==> pieces(s.take(i as int)).len() == 1,
            first_done ==> pieces(s.take(i as int)).len() >= 2,
            first_done ==> first_is_dot == (pieces(s.take(i as int))[0] == cur_component()),
            chars@ == s,
        decreases n - i,
    {
        let c = chars[i];
        let ghost before = pieces(s.take(i as int));
        proof {
            assert(s.take(i + 1).drop_last() =~= s.take(i as int));
            assert(s.take(i + 1).last() == c);
        }
        if c == '/' {
            if !first_done {
                first_is_dot = is_dot(&cur);
                first_done = true;
            }
            let piece = cur;
            cur = Vec::new();
            let ghost after = pieces(s.take(i + 1));
            proof {
                assert(after == before.push(Seq::<char>::empty()));
                assert(after.drop_last() =~= before);
                assert(before =~= before.drop_last().push(before.last()));
            }
            if is_dot(&piece) || piece.len() == 0 {
                proof {
                    assert(kept(before) == kept(before.drop_last()));
                }
            } else {
                kept_v.push(piece);
                proof {
                    assert(kept(before) == kept(before.drop_last()).push(before.last()));
                    assert(seqs_of(kept_v@) =~= kept(before));
                }
            }
            proof {
                assert(cur@ =~= after.last());
                assert(after[0] == before[0]);
            }
        } else {
            cur.push(c);
            let ghost after = pieces(s.take(i + 1));
            proof {
                assert(after == before.update(before.len() - 1, before.last().push(c)));
                assert(after.drop_last() =~= before.drop_last());
                assert(cur@ =~= after.last());
                if first_done {
                    assert(before.len() >= 2);
                    assert(after[0] == before[0]);
                }
            }
        }
        i = i + 1;
    }
    proof {
        assert(s.take(n as int) =~= s);
    }
    let ghost ps = pieces(s);
    if !first_done {
        first_is_dot = is_dot(&cur);
    }
    let keep_last = !(is_dot(&cur) || cur.len() == 0);
    proof {
        assert(ps =~= ps.drop_last().push(ps.last()));
    }
    if keep_last {
        kept_v.push(cur);
        proof {
            assert(kept(ps) == kept(ps.drop_last()).push(ps.last()));
            assert(seqs_of(kept_v@) =~= kept(ps));
        }
    } else {
        proof {
            assert(kept(ps) == kept(ps.drop_last()));
        }
    }
    let absolute = n > 0 && chars[0] == '/';
    let mut out: Vec<Vec<char>> = Vec::new();
    if absolute {
        let mut root: Vec<char> = Vec::new();
        root.push('/');
        out.push(root);
    } else if first_is_dot {
        let mut dot: Vec<char> = Vec::new();
        dot.push('.');
        out.push(dot);
    }
    let ghost lead = seqs_of(out@);
    proof {
        if absolute {
            assert(lead =~= seq![root_component()]);
        } else if first_is_dot {
            assert(lead =~= seq![cur_component()]);
        } else {
            assert(lead =~= Seq::<Seq<char>>::empty());
        }
    }
    let ghost kv = kept_v@;
    out.append(&mut kept_v);
    proof {
        assert(seqs_of(out@) =~= lead + seqs_of(kv));
    }
    proof {
        assert(seqs_of(out@) =~= components(path@));
    }
    out
}

} // verus!
