//! Output formatters for port allocations.
//!
//! Human and JSON output list allocations by service tag in character-code
//! order; export and dotenv output list them by variable name in that order.
//! Export and dotenv output name each port by an environment variable: the
//! explicit mapping for the tag when there is one, otherwise the tag
//! upper-cased with `-` turned into `_`. Every name must be a portable
//! identifier, and no two may differ only in ASCII case; otherwise nothing is
//! rendered.

use vstd::prelude::*;
use crate::error::Error;
use crate::ordering::{chars_less, chars_lt, insert_by_tag, lemma_insert_by_tag_at, sort_by_tag, lemma_sort_by_tag_len, lemma_sort_by_tag_member, lemma_sort_by_tag_strict};
use crate::output::shell::ShellType;
use crate::port::{join_with, lemma_join_push, Port};
use crate::tag_map::TagMap;
use crate::text::{decimal, decimal_string, owned, push_decimal};
use crate::output::json::{json_entries, pretty_json_object, to_json_pretty};

verus! {

/// Whether `c` may start an environment variable name: an ASCII letter or `_`.
pub open spec fn is_env_start(c: char) -> bool {
    ('A' <= c && c <= 'Z') || ('a' <= c && c <= 'z') || c == '_'
}

/// Whether `c` may appear in an environment variable name.
pub open spec fn is_env_char(c: char) -> bool {
    is_env_start(c) || ('0' <= c && c <= '9')
}

/// The most bytes a portable environment variable name may have.
pub const MAX_ENV_NAME_LEN: usize = 255;

/// Whether `s` is a portable environment variable name: at most 255
/// characters (each ASCII, so as many bytes), an ASCII letter or `_` first,
/// then only ASCII letters, digits and `_`.
pub open spec fn valid_env_name(s: Seq<char>) -> bool {
    0 < s.len() <= MAX_ENV_NAME_LEN && is_env_start(s[0]) && forall|i: int| 0 <= i < s.len() ==> is_env_char(#[trigger] s[i])
}

/// The character with ASCII letters raised.
pub open spec fn ascii_upper_char(c: char) -> char {
    if 'a' <= c && c <= 'z' { ((c as u32) - 32) as char } else { c }
}

/// The name derived from a tag: ASCII letters raised, `-` turned into `_`.
pub open spec fn derived_name(tag: Seq<char>) -> Seq<char> {
    tag.map_values(|c: char| if c == '-' { '_' } else { ascii_upper_char(c) })
}

/// The key under which two names collide: the name with ASCII letters raised.
pub open spec fn collision_key(name: Seq<char>) -> Seq<char> {
    name.map_values(|c: char| ascii_upper_char(c))
}

/// The name explicitly mapped to `tag`, if any.
pub open spec fn mapped_name(mappings: Option<TagMap<String>>, tag: Seq<char>) -> Option<Seq<char>> {
    match mappings {
        None => None,
        Some(m) => if exists|i: int| 0 <= i < m.spec_entries().len() && (#[trigger] m.spec_entries()[i]).0 == tag {
            Some(m.spec_entries()[choose|i: int| 0 <= i < m.spec_entries().len() && (#[trigger] m.spec_entries()[i]).0 == tag].1@)
        } else {
            None
        },
    }
}

/// The environment variable name for `tag`: its explicit mapping, or the
/// derived name; `None` when that name is not portable.
pub open spec fn spec_resolve_name(tag: Seq<char>, mappings: Option<TagMap<String>>) -> Option<Seq<char>> {
    let name = match mapped_name(mappings, tag) {
        Some(n) => n,
        None => derived_name(tag),
    };
    if valid_env_name(name) { Some(name) } else { None }
}

/// The refusal of a name that is not portable. It does not quote the name,
/// which may hold text that is unsafe to echo.
pub open spec fn invalid_name_error(e: Error) -> bool {
    e matches Error::Validation { field, message } && field@ == "environment_variable"@
        && message@ == "environment-variable names must be at most 255 bytes, start with an ASCII letter or underscore, and contain only ASCII letters, digits, and underscores"@
}

pub(crate) fn invalid_name() -> (e: Error)
    ensures
        invalid_name_error(e),
{
    Error::Validation {
        field: owned("environment_variable"),
        message: owned("environment-variable names must be at most 255 bytes, start with an ASCII letter or underscore, and contain only ASCII letters, digits, and underscores"),
    }
}

/// Whether `name` is a portable environment variable name: non-empty and
/// at most 255 bytes, an ASCII letter or `_` first, then only ASCII
/// letters, digits and `_`.
pub fn is_valid_env_var_name(name: &str) -> (r: bool)
    ensures
        r == valid_env_name(name@),
{
    let chars = crate::text::chars_of(name);
    if chars.len() == 0 || chars.len() > MAX_ENV_NAME_LEN {
        return false;
    }
    let c0 = chars[0];
    if !(('A' <= c0 && c0 <= 'Z') || ('a' <= c0 && c0 <= 'z') || c0 == '_') {
        return false;
    }
    let mut i: usize = 0;
    while i < chars.len()
        invariant
            i <= chars@.len(),
            chars@ == name@,
            forall|j: int| 0 <= j < i ==> is_env_char(#[trigger] name@[j]),
        decreases chars@.len() - i,
    {
        let c = chars[i];
        if !(('A' <= c && c <= 'Z') || ('a' <= c && c <= 'z') || c == '_' || ('0' <= c && c <= '9')) {
            assert(!is_env_char(name@[i as int]));
            return false;
        }
        i = i + 1;
    }
    true
}

/// The environment variable name derived from a service tag: ASCII letters
/// upper-cased and `-` turned into `_`; refused when the result is not portable.
pub fn tag_to_env_var(tag: &str) -> (r: Result<String, Error>)
    ensures
        r is Ok <==> valid_env_name(derived_name(tag@)),
        r matches Ok(s) ==> s@ == derived_name(tag@),
        r matches Err(e) ==> invalid_name_error(e),
{
    let chars = crate::text::chars_of(tag);
    let mut out = String::new();
    let mut i: usize = 0;
    while i < chars.len()
        invariant
            i <= chars@.len(),
            chars@ == tag@,
            out@ == derived_name(tag@.take(i as int)),
        decreases chars@.len() - i,
    {
        let c = chars[i];
        let d = if c == '-' {
            '_'
        } else if 'a' <= c && c <= 'z' {
            ((c as u32) - 32) as u8 as char
        } else {
            c
        };
        assert(d == (if c == '-' { '_' } else { ascii_upper_char(c) })) by {
            if c != '-' && 'a' <= c && c <= 'z' {
                assert(((c as u32) - 32) as u8 as char == ((c as u32) - 32) as char);
            }
        }
        out.push(d);
        assert(out@ =~= derived_name(tag@.take(i + 1)));
        i = i + 1;
    }
    assert(tag@.take(chars@.len() as int) =~= tag@);
    if is_valid_env_var_name(out.as_str()) {
        Ok(out)
    } else {
        Err(invalid_name())
    }
}

/// The name mapped to `tag`, if any.
fn lookup_mapping<'a>(tag: &str, mappings: Option<&'a TagMap<String>>) -> (r: Option<&'a String>)
    ensures
        match r {
            Some(n) => mapped_name(match mappings { Some(m) => Some(*m), None => None }, tag@) == Some(n@),
            None => mapped_name(match mappings { Some(m) => Some(*m), None => None }, tag@) is None,
        },
{
    match mappings {
        None => None,
        Some(m) => {
            m.check_distinct();
            let r = m.get(tag);
            proof {
                if r is Some {
                    let es = m.spec_entries();
                    let k = choose|i: int| 0 <= i < es.len() && (#[trigger] es[i]).0 == tag@ && es[i].1 == *r->0;
                    let c = choose|i: int| 0 <= i < es.len() && (#[trigger] es[i]).0 == tag@;
                    if c != k {
                        if c < k { assert(es[c].0 != es[k].0); } else { assert(es[k].0 != es[c].0); }
                    }
                }
            }
            r
        },
    }
}

/// The environment variable name for `tag`: its explicit mapping when one is
/// given, otherwise the name derived from the tag. Either way the name must be
/// portable; the refusal does not quote it.
pub fn resolve_env_var_name(tag: &str, env_mappings: Option<&TagMap<String>>) -> (r: Result<String, Error>)
    ensures
        r is Ok <==> spec_resolve_name(tag@, match env_mappings { Some(m) => Some(*m), None => None }) is Some,
        r matches Ok(s) ==> Some(s@) == spec_resolve_name(tag@, match env_mappings { Some(m) => Some(*m), None => None }),
        r matches Err(e) ==> invalid_name_error(e),
{
    match lookup_mapping(tag, env_mappings) {
        Some(name) => {
            if is_valid_env_var_name(name.as_str()) {
                Ok(name.clone())
            } else {
                Err(invalid_name())
            }
        },
        None => tag_to_env_var(tag),
    }
}

/// The key under which names collide, computed.
pub(crate) fn collision_key_of(name: &str) -> (r: Vec<char>)
    ensures
        r@ == collision_key(name@),
{
    let chars = crate::text::chars_of(name);
    let mut out: Vec<char> = Vec::new();
    let mut i: usize = 0;
    while i < chars.len()
        invariant
            i <= chars@.len(),
            chars@ == name@,
            out@ == collision_key(name@.take(i as int)),
        decreases chars@.len() - i,
    {
        let c = chars[i];
        let d = if 'a' <= c && c <= 'z' { ((c as u32) - 32) as u8 as char } else { c };
        assert(d == ascii_upper_char(c)) by {
            if 'a' <= c && c <= 'z' {
                assert(((c as u32) - 32) as u8 as char == ((c as u32) - 32) as char);
            }
        }
        out.push(d);
        assert(out@ =~= collision_key(name@.take(i + 1)));
        i = i + 1;
    }
    assert(name@.take(chars@.len() as int) =~= name@);
    out
}

/// A dotenv line `NAME=port`, after checking that the name is portable.
pub fn format_dotenv_assignment(variable_name: &str, port: Port) -> (r: Result<String, Error>)
    ensures
        r is Ok <==> valid_env_name(variable_name@),
        r matches Ok(s) ==> s@ == variable_name@ + "="@ + decimal(port@ as nat),
        r matches Err(e) ==> invalid_name_error(e),
{
    if !is_valid_env_var_name(variable_name) {
        return Err(invalid_name());
    }
    let mut s = owned(variable_name);
    s.push_str("=");
    push_decimal(&mut s, port.value() as u64);
    Ok(s)
}

use crate::tag_map::entry_views;

/// The first position whose tag comes after `key`.
fn tag_slot(out: &Vec<(String, Port)>, key: &Vec<char>) -> (pos: usize)
    ensures
        pos <= out@.len(),
        forall|j: int| 0 <= j < pos ==> !chars_lt(key@, (#[trigger] entry_views(out@)[j]).0),
        pos < out@.len() ==> chars_lt(key@, entry_views(out@)[pos as int].0),
{
    let mut pos: usize = 0;
    while pos < out.len()
        invariant
            pos <= out@.len(),
            forall|j: int| 0 <= j < pos ==> !chars_lt(key@, (#[trigger] entry_views(out@)[j]).0),
        decreases out@.len() - pos,
    {
        let other = crate::text::chars_of(out[pos].0.as_str());
        if chars_less(key, &other) {
            return pos;
        }
        pos = pos + 1;
    }
    pos
}

/// The allocations as `(tag, port)` pairs sorted by tag.
pub fn sorted_allocations(allocations: &TagMap<Port>) -> (r: Vec<(String, Port)>)
    ensures
        entry_views(r@) == sort_by_tag(allocations.spec_entries()),
{
    let entries = allocations.entries();
    let ghost ev = entry_views(entries@);
    let mut out: Vec<(String, Port)> = Vec::new();
    let mut i: usize = 0;
    while i < entries.len()
        invariant
            i <= entries@.len(),
            ev == entry_views(entries@),
            ev == allocations.spec_entries(),
            entry_views(out@) == sort_by_tag(ev.take(i as int)),
        decreases entries@.len() - i,
    {
        let tag = entries[i].0.clone();
        let port = entries[i].1;
        let key = crate::text::chars_of(tag.as_str());
        let ghost sorted = entry_views(out@);
        let pos = tag_slot(&out, &key);
        proof {
            assert(ev.take(i + 1).drop_last() =~= ev.take(i as int));
            assert(ev.take(i + 1).last() == (tag@, port));
            lemma_insert_by_tag_at(sorted, (tag@, port), pos as int);
        }
        out.insert(pos, (tag, port));
        assert(entry_views(out@) =~= sorted.insert(pos as int, (tag@, port)));
        i = i + 1;
    }
    assert(ev.take(entries@.len() as int) =~= ev);
    out
}

/// Whether every sorted allocation resolves to a name and no two names
/// collide when compared without ASCII case.
pub open spec fn names_resolve(s: Seq<(Seq<char>, Port)>, mappings: Option<TagMap<String>>) -> bool {
    &&& forall|i: int| 0 <= i < s.len() ==> (#[trigger] spec_resolve_name(s[i].0, mappings)) is Some
    &&& forall|i: int, j: int| 0 <= i < j < s.len() ==>
        collision_key(#[trigger] spec_resolve_name(s[i].0, mappings)->0) != collision_key(#[trigger] spec_resolve_name(s[j].0, mappings)->0)
}

/// Whether the first allocation that spoils `names_resolve`, in tag order,
/// does so because its own name does not resolve (rather than because it
/// collides with an earlier one).
pub open spec fn first_failure_invalid(s: Seq<(Seq<char>, Port)>, mappings: Option<TagMap<String>>) -> bool
    decreases s.len(),
{
    if s.len() == 0 {
        false
    } else if !names_resolve(s.drop_last(), mappings) {
        first_failure_invalid(s.drop_last(), mappings)
    } else {
        spec_resolve_name(s.last().0, mappings) is None
    }
}

/// Every prefix of allocations whose names resolve has names that resolve.
proof fn lemma_names_resolve_prefix(s: Seq<(Seq<char>, Port)>, mappings: Option<TagMap<String>>, k: int)
    requires
        0 <= k <= s.len(),
        names_resolve(s, mappings),
    ensures
        names_resolve(s.take(k), mappings),
{
    let t = s.take(k);
    assert forall|i: int| 0 <= i < t.len() implies (#[trigger] spec_resolve_name(t[i].0, mappings)) is Some by {
        assert(t[i] == s[i]);
        assert(spec_resolve_name(s[i].0, mappings) is Some);
    }
    assert forall|i: int, j: int| 0 <= i < j < t.len() implies
        collision_key(#[trigger] spec_resolve_name(t[i].0, mappings)->0) != collision_key(#[trigger] spec_resolve_name(t[j].0, mappings)->0) by {
        assert(t[i] == s[i] && t[j] == s[j]);
        assert(collision_key(spec_resolve_name(s[i].0, mappings)->0) != collision_key(spec_resolve_name(s[j].0, mappings)->0));
    }
}

/// The first `k` allocations resolve when each of their names resolves and
/// no two collide.
proof fn lemma_prefix_resolves(s: Seq<(Seq<char>, Port)>, mappings: Option<TagMap<String>>, k: int)
    requires
        0 <= k <= s.len(),
        forall|j: int| 0 <= j < k ==> (#[trigger] spec_resolve_name(s[j].0, mappings)) is Some,
        forall|a: int, b: int| 0 <= a < b < k ==>
            collision_key(#[trigger] spec_resolve_name(s[a].0, mappings)->0) != collision_key(#[trigger] spec_resolve_name(s[b].0, mappings)->0),
    ensures
        names_resolve(s.take(k), mappings),
{
    let t = s.take(k);
    assert forall|i: int| 0 <= i < t.len() implies (#[trigger] spec_resolve_name(t[i].0, mappings)) is Some by {
        assert(t[i] == s[i]);
        assert(spec_resolve_name(s[i].0, mappings) is Some);
    }
    assert forall|i: int, j: int| 0 <= i < j < t.len() implies
        collision_key(#[trigger] spec_resolve_name(t[i].0, mappings)->0) != collision_key(#[trigger] spec_resolve_name(t[j].0, mappings)->0) by {
        assert(t[i] == s[i] && t[j] == s[j]);
        assert(collision_key(spec_resolve_name(s[i].0, mappings)->0) != collision_key(spec_resolve_name(s[j].0, mappings)->0));
    }
}

/// The first failure of `s` is the first failure of any prefix that already fails.
proof fn lemma_first_failure_prefix(s: Seq<(Seq<char>, Port)>, mappings: Option<TagMap<String>>, k: int)
    requires
        0 <= k <= s.len(),
        !names_resolve(s.take(k), mappings),
    ensures
        first_failure_invalid(s, mappings) == first_failure_invalid(s.take(k), mappings),
    decreases s.len() - k,
{
    if k == s.len() {
        assert(s.take(k) =~= s);
    } else {
        let d = s.drop_last();
        assert(d.take(k) =~= s.take(k));
        lemma_first_failure_prefix(d, mappings, k);
        if names_resolve(d, mappings) {
            lemma_names_resolve_prefix(d, mappings, k);
        }
    }
}

/// The refusal of names that collide without ASCII case.
pub open spec fn collision_error(e: Error) -> bool {
    e matches Error::Validation { field, message } && field@ == "environment_variable"@
        && message@ == "resolved environment-variable names must be unique when compared without ASCII case"@
}

/// Resolves and checks the names of every allocation, in tag order, before
/// anything is rendered: each name must resolve, and no two may differ only
/// in ASCII case.
#[verifier::loop_isolation(false)]
pub fn resolve_allocations(allocations: &TagMap<Port>, env_mappings: Option<&TagMap<String>>)
    -> (r: Result<Vec<(Port, String)>, Error>)
    ensures
        ({
            let s = sort_by_tag(allocations.spec_entries());
            let m = match env_mappings { Some(x) => Some(*x), None => None };
            &&& r is Ok <==> names_resolve(s, m)
            &&& r matches Ok(v) ==> v@.len() == s.len() && forall|i: int| 0 <= i < s.len() ==>
                (#[trigger] v@[i]).0 == s[i].1 && v@[i].1@ == spec_resolve_name(s[i].0, m)->0
            &&& r matches Err(e) ==> invalid_name_error(e) || collision_error(e)
            &&& r matches Err(e) ==> (first_failure_invalid(s, m) ==> invalid_name_error(e))
                && (!first_failure_invalid(s, m) ==> collision_error(e))
        }),
{
    let sorted = sorted_allocations(allocations);
    let ghost s = sort_by_tag(allocations.spec_entries());
    let ghost m = match env_mappings { Some(x) => Some(*x), None => None };
    let mut keys: Vec<Vec<char>> = Vec::new();
    let mut resolved: Vec<(Port, String)> = Vec::new();
    let mut i: usize = 0;
    while i < sorted.len()
        invariant
            i <= sorted@.len(),
            entry_views(sorted@) == s,
            m == match env_mappings { Some(x) => Some(*x), None => None },
            keys@.len() == i,
            resolved@.len() == i,
            forall|j: int| 0 <= j < i ==> (#[trigger] spec_resolve_name(s[j].0, m)) is Some,
            forall|j: int| 0 <= j < i ==> (#[trigger] resolved@[j]).0 == s[j].1
                && resolved@[j].1@ == spec_resolve_name(s[j].0, m)->0,
            forall|j: int| 0 <= j < i ==> (#[trigger] keys@[j])@ == collision_key(spec_resolve_name(s[j].0, m)->0),
            forall|a: int, b: int| 0 <= a < b < i ==>
                collision_key(#[trigger] spec_resolve_name(s[a].0, m)->0) != collision_key(#[trigger] spec_resolve_name(s[b].0, m)->0),
        decreases sorted@.len() - i,
    {
        assert(s.len() == sorted@.len());
        assert(s[i as int] == (sorted@[i as int].0@, sorted@[i as int].1));
        let name = match resolve_env_var_name(sorted[i].0.as_str(), env_mappings) {
            Ok(n) => n,
            Err(e) => {
                proof {
                    assert(!names_resolve(s, m)) by {
                        assert(spec_resolve_name(s[i as int].0, m) is None);
                    }
                    lemma_prefix_resolves(s, m, i as int);
                    let t = s.take(i + 1);
                    assert(t.drop_last() =~= s.take(i as int));
                    assert(t[i as int] == s[i as int]);
                    assert(!names_resolve(t, m));
                    assert(first_failure_invalid(t, m));
                    lemma_first_failure_prefix(s, m, i + 1);
                }
                return Err(e);
            },
        };
        let key = collision_key_of(name.as_str());
        let mut j: usize = 0;
        while j < i
            invariant
                j <= i,
                i == keys@.len(),
                key@ == collision_key(name@),
                forall|a: int| 0 <= a < j ==> keys@[a]@ != key@,
            decreases i - j,
        {
            if crate::path::components::chars_equal(&keys[j], &key) {
                proof {
                    assert(keys@[j as int]@ == collision_key(spec_resolve_name(s[j as int].0, m)->0));
                    assert(!names_resolve(s, m)) by {
                        assert(collision_key(spec_resolve_name(s[j as int].0, m)->0)
                            == collision_key(spec_resolve_name(s[i as int].0, m)->0));
                    }
                    lemma_prefix_resolves(s, m, i as int);
                    let t = s.take(i + 1);
                    assert(t.drop_last() =~= s.take(i as int));
                    assert(t[i as int] == s[i as int] && t[j as int] == s[j as int]);
                    assert(!names_resolve(t, m));
                    assert(!first_failure_invalid(t, m));
                    lemma_first_failure_prefix(s, m, i + 1);
                }
                return Err(Error::Validation {
                    field: owned("environment_variable"),
                    message: owned("resolved environment-variable names must be unique when compared without ASCII case"),
                });
            }
            j = j + 1;
        }
        proof {
            assert forall|a: int| 0 <= a < i implies collision_key(#[trigger] spec_resolve_name(s[a].0, m)->0)
                != collision_key(spec_resolve_name(s[i as int].0, m)->0) by {
                assert(keys@[a]@ == collision_key(spec_resolve_name(s[a].0, m)->0));
            }
        }
        keys.push(key);
        resolved.push((sorted[i].1, name));
        i = i + 1;
    }
    proof {
        lemma_sort_by_tag_len(allocations.spec_entries());
    }
    Ok(resolved)
}

/// The name of sorted allocation `i` (see `spec_resolve_name`).
pub open spec fn name_at(s: Seq<(Seq<char>, Port)>, mappings: Option<TagMap<String>>, i: int) -> Seq<char> {
    spec_resolve_name(s[i].0, mappings)->0
}

/// The lines `lines` joined with newlines.
fn join_lines(lines: &Vec<String>) -> (r: String)
    ensures
        r@ == join_with(lines@.map_values(|l: String| l@), "\n"@),
{
    let ghost lv = lines@.map_values(|l: String| l@);
    let mut out = String::new();
    let mut i: usize = 0;
    proof { reveal_strlit("\n"); }
    while i < lines.len()
        invariant
            i <= lines@.len(),
            lv == lines@.map_values(|l: String| l@),
            out@ == join_with(lv.take(i as int), "\n"@),
        decreases lines@.len() - i,
    {
        proof {
            lemma_join_push(lv.take(i as int), lv[i as int], "\n"@);
            assert(lv.take(i as int).push(lv[i as int]) =~= lv.take(i + 1));
        }
        if i > 0 {
            out.push_str("\n");
        }
        out.push_str(lines[i].as_str());
        i = i + 1;
    }
    assert(lv.take(lines@.len() as int) =~= lv);
    out
}

/// The sorted allocations `s` as `(variable name, port)` pairs, in the same order.
pub open spec fn named_allocations(s: Seq<(Seq<char>, Port)>, mappings: Option<TagMap<String>>) -> Seq<(Seq<char>, Port)> {
    Seq::new(s.len(), |i: int| (name_at(s, mappings, i), s[i].1))
}

/// The `(variable name, port)` pairs of the sorted allocations `s`, ordered
/// by variable name (character-code order, as tags are).
pub open spec fn by_name(s: Seq<(Seq<char>, Port)>, mappings: Option<TagMap<String>>) -> Seq<(Seq<char>, Port)> {
    sort_by_tag(named_allocations(s, mappings))
}

/// The `(name, port)` pairs of resolved allocations.
pub open spec fn resolved_pairs(v: Seq<(Port, String)>) -> Seq<(Seq<char>, Port)> {
    v.map_values(|e: (Port, String)| (e.1@, e.0))
}

/// The resolved allocations as `(name, port)` pairs sorted by name.
fn sorted_by_name(resolved: &Vec<(Port, String)>) -> (r: Vec<(String, Port)>)
    ensures
        entry_views(r@) == sort_by_tag(resolved_pairs(resolved@)),
{
    let ghost rv = resolved_pairs(resolved@);
    let mut out: Vec<(String, Port)> = Vec::new();
    let mut i: usize = 0;
    while i < resolved.len()
        invariant
            i <= resolved@.len(),
            rv == resolved_pairs(resolved@),
            entry_views(out@) == sort_by_tag(rv.take(i as int)),
        decreases resolved@.len() - i,
    {
        let name = resolved[i].1.clone();
        let port = resolved[i].0;
        let key = crate::text::chars_of(name.as_str());
        let ghost sorted = entry_views(out@);
        let pos = tag_slot(&out, &key);
        proof {
            assert(rv.take(i + 1).drop_last() =~= rv.take(i as int));
            assert(rv.take(i + 1).last() == (name@, port));
            lemma_insert_by_tag_at(sorted, (name@, port), pos as int);
        }
        out.insert(pos, (name, port));
        assert(entry_views(out@) =~= sorted.insert(pos as int, (name@, port)));
        i = i + 1;
    }
    assert(rv.take(resolved@.len() as int) =~= rv);
    out
}

/// The export lines in `shell` of `(name, port)` pairs.
pub open spec fn export_lines(shell: ShellType, n: Seq<(Seq<char>, Port)>) -> Seq<Seq<char>> {
    Seq::new(n.len(), |i: int| shell.spec_export(n[i].0, decimal(n[i].1@ as nat)))
}

/// The dotenv lines of `(name, port)` pairs.
pub open spec fn dotenv_lines(n: Seq<(Seq<char>, Port)>) -> Seq<Seq<char>> {
    Seq::new(n.len(), |i: int| n[i].0 + "="@ + decimal(n[i].1@ as nat))
}

/// What export formatting of `allocations` gives: the export lines in
/// variable-name order joined with newlines, or a naming error exactly when
/// the names do not resolve.
pub open spec fn export_output(f: ExportFormatter, allocations: TagMap<Port>, r: Result<String, Error>) -> bool {
    let s = sort_by_tag(allocations.spec_entries());
    &&& r is Ok <==> names_resolve(s, f.env_mappings)
    &&& r matches Ok(out) ==> out@ == join_with(export_lines(f.shell, by_name(s, f.env_mappings)), "\n"@)
    &&& r matches Err(e) ==> invalid_name_error(e) || collision_error(e)
    &&& r matches Err(e) ==> (first_failure_invalid(s, f.env_mappings) ==> invalid_name_error(e))
        && (!first_failure_invalid(s, f.env_mappings) ==> collision_error(e))
}

/// What dotenv formatting of `allocations` gives: the `NAME=port` lines in
/// variable-name order joined with newlines, or a naming error exactly when
/// the names do not resolve.
pub open spec fn dotenv_output(f: DotenvFormatter, allocations: TagMap<Port>, r: Result<String, Error>) -> bool {
    let s = sort_by_tag(allocations.spec_entries());
    &&& r is Ok <==> names_resolve(s, f.env_mappings)
    &&& r matches Ok(out) ==> out@ == join_with(dotenv_lines(by_name(s, f.env_mappings)), "\n"@)
    &&& r matches Err(e) ==> invalid_name_error(e) || collision_error(e)
    &&& r matches Err(e) ==> (first_failure_invalid(s, f.env_mappings) ==> invalid_name_error(e))
        && (!first_failure_invalid(s, f.env_mappings) ==> collision_error(e))
}

/// What human-readable formatting of `allocations` gives; it always succeeds.
pub open spec fn human_output(allocations: TagMap<Port>, r: Result<String, Error>) -> bool {
    r matches Ok(out) && out@ == if allocations.spec_entries().len() == 0 {
        "No ports reserved."@
    } else {
        "Reserved ports:"@ + human_lines(sort_by_tag(allocations.spec_entries()))
    }
}

/// What JSON formatting of `allocations` gives; it always succeeds.
pub open spec fn json_output(allocations: TagMap<Port>, r: Result<String, Error>) -> bool {
    r matches Ok(out) && out@ == pretty_json_object(tag_numbers(sort_by_tag(allocations.spec_entries())))
}

/// Formatter for shell-specific export statements.
#[derive(Debug)]
pub struct ExportFormatter {
    /// The shell to format for.
    pub shell: ShellType,
    /// Service tag to environment variable name.
    pub env_mappings: Option<TagMap<String>>,
}

impl ExportFormatter {
    /// A formatter for `shell`, with optional explicit names for service tags.
    pub fn new(shell: ShellType, env_mappings: Option<TagMap<String>>) -> (f: Self)
        ensures
            f.shell == shell,
            f.env_mappings == env_mappings,
    {
        ExportFormatter { shell, env_mappings }
    }

    /// One export statement per allocation, in order of variable name,
    /// joined with newlines; refused when a name does not resolve or two collide.
    pub fn format(&self, allocations: &TagMap<Port>) -> (r: Result<String, Error>)
        ensures
            ({
                let s = sort_by_tag(allocations.spec_entries());
                &&& r is Ok <==> names_resolve(s, self.env_mappings)
                &&& r matches Ok(out) ==> out@ == join_with(export_lines(self.shell, by_name(s, self.env_mappings)), "\n"@)
                &&& r matches Err(e) ==> invalid_name_error(e) || collision_error(e)
                &&& r matches Err(e) ==> (first_failure_invalid(s, self.env_mappings) ==> invalid_name_error(e))
                    && (!first_failure_invalid(s, self.env_mappings) ==> collision_error(e))
            }),
    {
        let resolved = resolve_allocations(allocations, self.env_mappings.as_ref())?;
        let ghost s = sort_by_tag(allocations.spec_entries());
        let ghost n = by_name(s, self.env_mappings);
        assert(resolved_pairs(resolved@) =~= named_allocations(s, self.env_mappings));
        let named = sorted_by_name(&resolved);
        let mut lines: Vec<String> = Vec::new();
        let mut i: usize = 0;
        while i < named.len()
            invariant
                i <= named@.len(),
                entry_views(named@) == n,
                lines@.len() == i,
                forall|k: int| 0 <= k < i ==> (#[trigger] lines@[k])@ == export_lines(self.shell, n)[k],
            decreases named@.len() - i,
        {
            assert(n[i as int] == (named@[i as int].0@, named@[i as int].1));
            let value = decimal_string(named[i].1.value() as u64);
            lines.push(self.shell.format_export(named[i].0.as_str(), value.as_str()));
            i = i + 1;
        }
        assert(lines@.map_values(|l: String| l@) =~= export_lines(self.shell, n));
        Ok(join_lines(&lines))
    }
}

/// Formatter for dotenv (`.env` file) output.
#[derive(Debug)]
pub struct DotenvFormatter {
    /// Service tag to environment variable name.
    pub env_mappings: Option<TagMap<String>>,
}

impl DotenvFormatter {
    /// A formatter with optional explicit names for service tags.
    pub fn new(env_mappings: Option<TagMap<String>>) -> (f: Self)
        ensures
            f.env_mappings == env_mappings,
    {
        DotenvFormatter { env_mappings }
    }

    /// One `NAME=port` line per allocation, in order of variable name,
    /// joined with newlines; refused when a name does not resolve or two collide.
    pub fn format(&self, allocations: &TagMap<Port>) -> (r: Result<String, Error>)
        ensures
            ({
                let s = sort_by_tag(allocations.spec_entries());
                &&& r is Ok <==> names_resolve(s, self.env_mappings)
                &&& r matches Ok(out) ==> out@ == join_with(dotenv_lines(by_name(s, self.env_mappings)), "\n"@)
                &&& r matches Err(e) ==> invalid_name_error(e) || collision_error(e)
                &&& r matches Err(e) ==> (first_failure_invalid(s, self.env_mappings) ==> invalid_name_error(e))
                    && (!first_failure_invalid(s, self.env_mappings) ==> collision_error(e))
            }),
    {
        let resolved = resolve_allocations(allocations, self.env_mappings.as_ref())?;
        let ghost s = sort_by_tag(allocations.spec_entries());
        let ghost na = named_allocations(s, self.env_mappings);
        let ghost n = by_name(s, self.env_mappings);
        assert(resolved_pairs(resolved@) =~= na);
        let named = sorted_by_name(&resolved);
        proof {
            assert forall|k: int| 0 <= k < n.len() implies valid_env_name(#[trigger] n[k].0) by {
                lemma_sort_by_tag_member(na, k);
                let j = choose|j: int| 0 <= j < na.len() && na[j] == n[k];
                assert(spec_resolve_name(s[j].0, self.env_mappings) is Some);
            }
        }
        let mut lines: Vec<String> = Vec::new();
        let mut i: usize = 0;
        while i < named.len()
            invariant
                i <= named@.len(),
                entry_views(named@) == n,
                forall|k: int| 0 <= k < n.len() ==> valid_env_name(#[trigger] n[k].0),
                lines@.len() == i,
                forall|k: int| 0 <= k < i ==> (#[trigger] lines@[k])@ == dotenv_lines(n)[k],
            decreases named@.len() - i,
        {
            assert(n[i as int] == (named@[i as int].0@, named@[i as int].1));
            let line = match format_dotenv_assignment(named[i].0.as_str(), named[i].1) {
                Ok(l) => l,
                Err(e) => {
                    assert(valid_env_name(n[i as int].0));
                    return Err(e);
                },
            };
            lines.push(line);
            i = i + 1;
        }
        assert(lines@.map_values(|l: String| l@) =~= dotenv_lines(n));
        Ok(join_lines(&lines))
    }
}

/// The human-readable listing of the sorted allocations `s`: a line
/// `  tag: port` for each.
pub open spec fn human_lines(s: Seq<(Seq<char>, Port)>) -> Seq<char>
    decreases s.len(),
{
    if s.len() == 0 {
        Seq::empty()
    } else {
        human_lines(s.drop_last()) + "\n  "@ + s.last().0 + ": "@ + decimal(s.last().1@ as nat)
    }
}

/// Formatter for human-readable output.
#[derive(Debug, Clone, Copy)]
pub struct HumanFormatter;

impl HumanFormatter {
    /// `Reserved ports:` followed by a line `  tag: port` for each allocation
    /// in tag order, or `No ports reserved.` when there is none.
    pub fn format(&self, allocations: &TagMap<Port>) -> (r: Result<String, Error>)
        ensures
            r matches Ok(out) && out@ == if allocations.spec_entries().len() == 0 {
                "No ports reserved."@
            } else {
                "Reserved ports:"@ + human_lines(sort_by_tag(allocations.spec_entries()))
            },
    {
        if allocations.is_empty() {
            return Ok(owned("No ports reserved."));
        }
        let sorted = sorted_allocations(allocations);
        let ghost s = entry_views(sorted@);
        let mut out = owned("Reserved ports:");
        let ghost head = out@;
        let mut i: usize = 0;
        while i < sorted.len()
            invariant
                i <= sorted@.len(),
                s == entry_views(sorted@),
                out@ == head + human_lines(s.take(i as int)),
            decreases sorted@.len() - i,
        {
            proof {
                assert(s.take(i + 1).drop_last() =~= s.take(i as int));
                assert(s.take(i + 1).last() == s[i as int]);
            }
            out.push_str("\n  ");
            out.push_str(sorted[i].0.as_str());
            out.push_str(": ");
            push_decimal(&mut out, sorted[i].1.value() as u64);
            assert(out@ =~= head + human_lines(s.take(i + 1)));
            i = i + 1;
        }
        assert(s.take(sorted@.len() as int) =~= s);
        Ok(out)
    }
}

/// The tags and port numbers of sorted allocations.
pub open spec fn tag_numbers(s: Seq<(Seq<char>, Port)>) -> Seq<(Seq<char>, u16)> {
    s.map_values(|e: (Seq<char>, Port)| (e.0, e.1@))
}

/// Formatter for JSON output.
#[derive(Debug, Clone, Copy)]
pub struct JsonFormatter;

impl JsonFormatter {
    /// A pretty-printed JSON object from each tag to its port, keys in tag order.
    pub fn format(&self, allocations: &TagMap<Port>) -> (r: Result<String, Error>)
        ensures
            r matches Ok(out) && out@ == pretty_json_object(tag_numbers(sort_by_tag(allocations.spec_entries()))),
    {
        let sorted = sorted_allocations(allocations);
        let mut entries: Vec<(String, u16)> = Vec::new();
        let mut i: usize = 0;
        while i < sorted.len()
            invariant
                i <= sorted@.len(),
                entries@.len() == i,
                forall|k: int| 0 <= k < i ==> (#[trigger] entries@[k]).0@ == sorted@[k].0@
                    && entries@[k].1 == sorted@[k].1@,
            decreases sorted@.len() - i,
        {
            entries.push((sorted[i].0.clone(), sorted[i].1.value()));
            i = i + 1;
        }
        assert(json_entries(entries@) =~= tag_numbers(entry_views(sorted@)));
        allocations.check_distinct();
        proof {
            lemma_sort_by_tag_strict(allocations.spec_entries());
            assert forall|a: int, b: int| 0 <= a < b < entries@.len() implies
                chars_lt((#[trigger] entries@[a]).0@, (#[trigger] entries@[b]).0@) by {
                assert(entry_views(sorted@)[a].0 == sorted@[a].0@ && entry_views(sorted@)[b].0 == sorted@[b].0@);
            }
        }
        match to_json_pretty(&entries) {
            Ok(s) => Ok(s),
            Err(text) => {
                let mut message = owned("failed to serialize to JSON: ");
                message.push_str(text.as_str());
                Err(Error::Validation { field: owned("json_output"), message })
            },
        }
    }
}

} // verus!
