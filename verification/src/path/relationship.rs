//! Path relationship checking.

use vstd::prelude::*;
use crate::path::components::{chars_equal, components, is_name, lemma_components_join_name, lemma_components_small, path_components, seqs_of};
use crate::path::normalize::join_path;
use crate::text::owned;

verus! {

/// Relationship between two paths.
#[derive(Debug, Clone, Copy, PartialEq, Eq, Structural, Hash)]
pub enum PathRelationship {
    /// The first path is an ancestor of the second.
    Ancestor,
    /// The first path is a descendant of the second.
    Descendant,
    /// The paths are the same.
    Same,
    /// The paths are unrelated.
    Unrelated,
}

/// The path with one trailing `/` or `\` removed, unless it is a single character.
pub open spec fn strip_trailing_separator(s: Seq<char>) -> Seq<char> {
    if s.len() > 1 && (s.last() == '/' || s.last() == '\\') {
        s.drop_last()
    } else {
        s
    }
}

/// The relationship of two component sequences.
pub open spec fn relationship_of(c1: Seq<Seq<char>>, c2: Seq<Seq<char>>) -> PathRelationship {
    if c1 == c2 {
        PathRelationship::Same
    } else if c1.is_prefix_of(c2) {
        PathRelationship::Ancestor
    } else if c2.is_prefix_of(c1) {
        PathRelationship::Descendant
    } else {
        PathRelationship::Unrelated
    }
}

/// The relationship of two path strings, compared component-wise after
/// removing one trailing separator from each.
pub open spec fn spec_between(p1: Seq<char>, p2: Seq<char>) -> PathRelationship {
    relationship_of(
        components(strip_trailing_separator(p1)),
        components(strip_trailing_separator(p2)),
    )
}

/// The relationship seen from the other path.
pub open spec fn converse(r: PathRelationship) -> PathRelationship {
    match r {
        PathRelationship::Ancestor => PathRelationship::Descendant,
        PathRelationship::Descendant => PathRelationship::Ancestor,
        PathRelationship::Same => PathRelationship::Same,
        PathRelationship::Unrelated => PathRelationship::Unrelated,
    }
}

/// Removes one trailing separator for comparison (the root `/` is kept).
pub fn normalize_for_comparison(path: &str) -> (r: String)
    ensures
        r@ == strip_trailing_separator(path@),
{
    let mut chars = crate::text::chars_of(path);
    let n = chars.len();
    if n > 1 && (chars[n - 1] == '/' || chars[n - 1] == '\\') {
        chars.pop();
        assert(chars@ =~= path@.drop_last());
    }
    string_of_chars(&chars)
}

/// The string holding exactly the given characters.
pub fn string_of_chars(chars: &Vec<char>) -> (s: String)
    ensures
        s@ == chars@,
{
    let mut s = String::new();
    let mut i: usize = 0;
    while i < chars.len()
        invariant
            i <= chars@.len(),
            s@ == chars@.take(i as int),
        decreases chars@.len() - i,
    {
        s.push(chars[i]);
        assert(s@ =~= chars@.take(i + 1));
        i = i + 1;
    }
    assert(chars@.take(chars@.len() as int) =~= chars@);
    s
}

/// Whether `a` is a prefix of `b`, component by component.
pub(crate) fn components_prefix(a: &Vec<Vec<char>>, b: &Vec<Vec<char>>) -> (r: bool)
    ensures
        r == seqs_of(a@).is_prefix_of(seqs_of(b@)),
{
    if a.len() > b.len() {
        return false;
    }
    let mut i: usize = 0;
    while i < a.len()
        invariant
            a@.len() <= b@.len(),
            i <= a@.len(),
            forall|j: int| 0 <= j < i ==> seqs_of(a@)[j] == seqs_of(b@)[j],
        decreases a@.len() - i,
    {
        if !chars_equal(&a[i], &b[i]) {
            assert(seqs_of(a@)[i as int] != seqs_of(b@)[i as int]);
            return false;
        }
        i = i + 1;
    }
    assert(seqs_of(a@) =~= seqs_of(b@).take(a@.len() as int));
    true
}

impl PathRelationship {
    /// Determines the relationship between two paths.
    ///
    /// Both paths lose one trailing separator and are then compared by
    /// components: equal components are `Same`, a component prefix is an
    /// ancestor, the reverse a descendant, and anything else is unrelated.
    pub fn between(path1: &str, path2: &str) -> (r: Self)
        ensures
            r == spec_between(path1@, path2@),
    {
        let n1 = normalize_for_comparison(path1);
        let n2 = normalize_for_comparison(path2);
        let c1 = path_components(n1.as_str());
        let c2 = path_components(n2.as_str());
        let one_in_two = components_prefix(&c1, &c2);
        let two_in_one = components_prefix(&c2, &c1);
        if one_in_two && two_in_one {
            assert(seqs_of(c1@) =~= seqs_of(c2@));
            return PathRelationship::Same;
        }
        if one_in_two {
            return PathRelationship::Ancestor;
        }
        if two_in_one {
            return PathRelationship::Descendant;
        }
        PathRelationship::Unrelated
    }

    /// Whether the relationship is hierarchical (anything but `Unrelated`).
    pub open spec fn spec_is_hierarchical(self) -> bool {
        !(self is Unrelated)
    }

    /// Returns `true` for `Ancestor`, `Descendant`, or `Same`.
    pub fn is_hierarchical(&self) -> (r: bool)
        ensures
            r == self.spec_is_hierarchical(),
    {
        match self {
            PathRelationship::Unrelated => false,
            _ => true,
        }
    }

    /// Moves up or down the hierarchy are allowed; sideways moves need force.
    pub fn is_allowed_without_force(&self) -> (r: bool)
        ensures
            r == self.spec_is_hierarchical(),
    {
        self.is_hierarchical()
    }

    /// Whether `path` is within `directory` (descendant or same).
    pub fn is_within(path: &str, directory: &str) -> (r: bool)
        ensures
            r == (spec_between(path@, directory@) is Descendant || spec_between(path@, directory@) is Same),
    {
        match Self::between(path, directory) {
            PathRelationship::Descendant | PathRelationship::Same => true,
            _ => false,
        }
    }

    /// Whether `path` contains `other` (ancestor or same).
    pub fn contains(path: &str, other: &str) -> (r: bool)
        ensures
            r == (spec_between(path@, other@) is Ancestor || spec_between(path@, other@) is Same),
    {
        match Self::between(path, other) {
            PathRelationship::Ancestor | PathRelationship::Same => true,
            _ => false,
        }
    }

    /// The sentence describing this relationship between the two paths.
    pub open spec fn spec_description(self, p1: Seq<char>, p2: Seq<char>) -> Seq<char> {
        match self {
            PathRelationship::Ancestor => p1 + " is an ancestor of "@ + p2,
            PathRelationship::Descendant => p1 + " is a descendant of "@ + p2,
            PathRelationship::Same => p1 + " and "@ + p2 + " are the same path"@,
            PathRelationship::Unrelated => p1 + " and "@ + p2 + " are unrelated paths"@,
        }
    }

    /// Gets a human-readable description of the relationship.
    pub fn description(&self, path1: &str, path2: &str) -> (s: String)
        ensures
            s@ == self.spec_description(path1@, path2@),
    {
        let mut s = owned(path1);
        match self {
            PathRelationship::Ancestor => {
                s.push_str(" is an ancestor of ");
                s.push_str(path2);
            },
            PathRelationship::Descendant => {
                s.push_str(" is a descendant of ");
                s.push_str(path2);
            },
            PathRelationship::Same => {
                s.push_str(" and ");
                s.push_str(path2);
                s.push_str(" are the same path");
            },
            PathRelationship::Unrelated => {
                s.push_str(" and ");
                s.push_str(path2);
                s.push_str(" are unrelated paths");
            },
        }
        s
    }
}

/// Every path is the same as itself.
pub proof fn lemma_between_reflexive(p: Seq<char>)
    ensures
        spec_between(p, p) == PathRelationship::Same,
{
}

/// Swapping the two paths swaps ancestor and descendant and keeps the other two answers.
pub proof fn lemma_between_converse(p1: Seq<char>, p2: Seq<char>)
    ensures
        spec_between(p2, p1) == converse(spec_between(p1, p2)),
{
    let c1 = components(strip_trailing_separator(p1));
    let c2 = components(strip_trailing_separator(p2));
    if c1.is_prefix_of(c2) && c2.is_prefix_of(c1) {
        assert(c1 =~= c2);
    }
}

/// A path lies within a directory exactly when the directory contains the path.
pub proof fn lemma_within_iff_contains(path: Seq<char>, directory: Seq<char>)
    ensures
        (spec_between(path, directory) is Descendant || spec_between(path, directory) is Same)
            == (spec_between(directory, path) is Ancestor || spec_between(directory, path) is Same),
{
    lemma_between_converse(path, directory);
}

/// The ancestor relationship is transitive.
pub proof fn lemma_ancestor_transitive(p1: Seq<char>, p2: Seq<char>, p3: Seq<char>)
    requires
        spec_between(p1, p2) is Ancestor,
        spec_between(p2, p3) is Ancestor,
    ensures
        spec_between(p1, p3) is Ancestor,
{
    let c1 = components(strip_trailing_separator(p1));
    let c2 = components(strip_trailing_separator(p2));
    let c3 = components(strip_trailing_separator(p3));
    assert(c1.len() < c2.len()) by {
        if c1.len() == c2.len() {
            assert(c1 =~= c2);
        }
    }
    assert(c2.len() < c3.len()) by {
        if c2.len() == c3.len() {
            assert(c2 =~= c3);
        }
    }
    assert forall|i: int| 0 <= i < c1.len() implies c1[i] == c3[i] by {
        assert(c1[i] == c2[i]);
        assert(c2[i] == c3[i]);
    }
    assert(c1.is_prefix_of(c3));
    assert(c1 != c3);
}

/// A path is the ancestor of any name joined below it, and the joined path
/// is its descendant (for paths not ending in a backslash, which comparison
/// strips, and names without one).
pub proof fn lemma_join_is_descendant(p: Seq<char>, n: Seq<char>)
    requires
        is_name(n),
        !n.contains('\\'),
        !(p.len() > 1 && p.last() == '\\'),
    ensures
        spec_between(p, join_path(p, n)) is Ancestor,
        spec_between(join_path(p, n), p) is Descendant,
{
    let q = join_path(p, n);
    assert(n.last() != '/' && n.last() != '\\') by {
        assert(n.contains(n[n.len() - 1]));
    }
    assert(n[0] != '/') by {
        assert(n.contains(n[0]));
    }
    assert(!crate::path::components::is_absolute(n));
    assert(q.len() > 0 && q.last() == n.last());
    assert(strip_trailing_separator(q) == q);
    let sp = strip_trailing_separator(p);
    assert(components(q) == components(sp).push(n)) by {
        lemma_components_small(n);
        if p.len() == 0 {
            assert(q == n);
            assert(sp == p);
            assert(p =~= Seq::<char>::empty());
        } else if p.last() == '/' {
            assert(q == p + n);
            if p.len() == 1 {
                assert(sp == p);
                assert(p =~= seq!['/']);
            } else {
                assert(sp == p.drop_last());
                assert(p + n =~= sp + seq!['/'] + n);
                lemma_components_join_name(sp, n);
            }
        } else {
            assert(sp == p);
            assert(q == p + seq!['/'] + n);
            lemma_components_join_name(p, n);
        }
    }
    let c = components(sp);
    assert(c.is_prefix_of(c.push(n)));
    assert(c != c.push(n));
    assert(!c.push(n).is_prefix_of(c));
}

} // verus!
