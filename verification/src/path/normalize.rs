//! Path normalization: tilde expansion, joining and `.`/`..` resolution.

use vstd::prelude::*;
use crate::error::Error;
use crate::path::components::{
    components, cur_component, is_absolute, join_slash, parent_component, path_components,
    render, root_component, seqs_of, well_formed_components, lemma_components_well_formed,
    lemma_components_render, plain_absolute,
};
use crate::path::relationship::string_of_chars;
use crate::text::owned;

verus! {

/// Once resolution of a prefix fails, resolution of the whole sequence fails.
pub proof fn lemma_resolve_none_extends(cs: Seq<Seq<char>>, k: int)
    requires
        0 <= k <= cs.len(),
        resolve_steps(cs.take(k)) is None,
    ensures
        resolve_steps(cs) is None,
    decreases cs.len(),
{
    if k == cs.len() {
        assert(cs.take(k) =~= cs);
    } else {
        assert(cs.drop_last().take(k) =~= cs.take(k));
        lemma_resolve_none_extends(cs.drop_last(), k);
    }
}

/// The result of applying one component to an already resolved prefix:
/// `.` is skipped, `..` removes the last non-root component (failing when
/// there is none), and anything else is appended.
pub open spec fn apply_component(r: Seq<Seq<char>>, c: Seq<char>) -> Option<Seq<Seq<char>>> {
    if c == cur_component() {
        Some(r)
    } else if c == parent_component() {
        if r.len() > 0 && r.last() != root_component() {
            Some(r.drop_last())
        } else {
            None
        }
    } else {
        Some(r.push(c))
    }
}

/// Resolves `.` and `..` in a component sequence, or `None` when `..` would
/// climb above the start of the path.
pub open spec fn resolve_steps(cs: Seq<Seq<char>>) -> Option<Seq<Seq<char>>>
    decreases cs.len(),
{
    if cs.len() == 0 {
        Some(Seq::empty())
    } else {
        match resolve_steps(cs.drop_last()) {
            None => None,
            Some(r) => apply_component(r, cs.last()),
        }
    }
}

/// The resolved form of a path string, if `..` never escapes.
pub open spec fn spec_resolve(path: Seq<char>) -> Option<Seq<char>> {
    match resolve_steps(components(path)) {
        Some(r) => Some(render(r)),
        None => None,
    }
}

/// `base` joined with `rel`: an absolute `rel` replaces `base`, otherwise a
/// separator is inserted when `base` is non-empty and lacks a trailing one.
pub open spec fn join_path(base: Seq<char>, rel: Seq<char>) -> Seq<char> {
    if is_absolute(rel) {
        rel
    } else if base.len() == 0 || base.last() == '/' {
        base + rel
    } else {
        base + seq!['/'] + rel
    }
}

/// Joins two paths as `PathBuf::join` does.
pub fn join(base: &str, rel: &str) -> (r: String)
    ensures
        r@ == join_path(base@, rel@),
{
    let rel_chars = crate::text::chars_of(rel);
    let base_chars = crate::text::chars_of(base);
    if rel_chars.len() > 0 && rel_chars[0] == '/' {
        return owned(rel);
    }
    let mut s = owned(base);
    if base_chars.len() > 0 && base_chars[base_chars.len() - 1] != '/' {
        s.push('/');
    }
    s.push_str(rel);
    assert(s@ =~= join_path(base@, rel@));
    s
}

proof fn lemma_join_slash_take(cs: Seq<Seq<char>>, k: int)
    requires
        0 <= k < cs.len(),
    ensures
        join_slash(cs.take(k + 1)) == if k == 0 { cs[0] } else { join_slash(cs.take(k)) + seq!['/'] + cs[k] },
{
    assert(cs.take(k + 1).drop_last() =~= cs.take(k));
}

pub(crate) fn render_components(cs: &Vec<Vec<char>>) -> (s: String)
    ensures
        s@ == render(seqs_of(cs@)),
{
    let ghost all = seqs_of(cs@);
    let mut s = String::new();
    let mut start: usize = 0;
    if cs.len() > 0 && cs[0].len() == 1 && cs[0][0] == '/' {
        assert(all[0] =~= root_component());
        s.push('/');
        start = 1;
    } else {
        assert(cs@.len() > 0 ==> all[0] != root_component());
    }
    let ghost rest = all.subrange(start as int, all.len() as int);
    proof {
        if start == 1 {
            assert(rest =~= all.drop_first());
        } else {
            assert(rest =~= all);
        }
    }
    let ghost prefix = s@;
    let mut i: usize = start;
    while i < cs.len()
        invariant
            start <= i <= cs@.len(),
            all == seqs_of(cs@),
            rest == all.subrange(start as int, all.len() as int),
            s@ == prefix + join_slash(rest.take(i - start)),
        decreases cs@.len() - i,
    {
        proof { lemma_join_slash_take(rest, i - start); }
        if i > start {
            s.push('/');
        }
        let piece = string_of_chars(&cs[i]);
        s.push_str(piece.as_str());
        assert(rest[i - start] == all[i as int]);
        assert(s@ =~= prefix + join_slash(rest.take(i + 1 - start)));
        i = i + 1;
    }
    assert(rest.take(cs@.len() - start) =~= rest);
    proof {
        if start == 1 {
            assert(prefix =~= seq!['/']);
        } else {
            assert(prefix =~= Seq::<char>::empty());
        }
    }
    assert(s@ =~= render(all));
    s
}

fn is_component(v: &Vec<char>, a: char, len: usize) -> (r: bool)
    requires
        len == 1 || len == 2,
    ensures
        r == (v@ == Seq::new(len as nat, |_i: int| a)),
{
    if v.len() != len {
        assert(v@.len() != Seq::new(len as nat, |_i: int| a).len());
        return false;
    }
    if len == 1 {
        let r = v[0] == a;
        if r { assert(v@ =~= Seq::new(len as nat, |_i: int| a)); }
        else { assert(v@[0] != Seq::new(len as nat, |_i: int| a)[0]); }
        r
    } else {
        let r = v[0] == a && v[1] == a;
        if r { assert(v@ =~= Seq::new(len as nat, |_i: int| a)); }
        else if v[0] != a { assert(v@[0] != Seq::new(len as nat, |_i: int| a)[0]); }
        else { assert(v@[1] != Seq::new(len as nat, |_i: int| a)[1]); }
        r
    }
}

/// Resolves `.` and `..` components in a path.
///
/// Fails when a `..` would climb above the root (or above the start of a
/// relative path).
pub fn resolve_components(path: &str) -> (r: Result<String, Error>)
    ensures
        spec_resolve(path@) is None <==> r is Err,
        r matches Ok(s) ==> spec_resolve(path@) == Some(s@),
        r matches Err(e) ==> e matches Error::InvalidPath { path: p, reason } && p@ == path@
            && reason@ == "Path contains too many '..' components (escapes root)"@,
{
    let cs = path_components(path);
    let ghost all = seqs_of(cs@);
    proof {
        lemma_components_well_formed(path@);
    }
    let mut result: Vec<Vec<char>> = Vec::new();
    let mut has_root = false;
    assert(Seq::new(1, |_i: int| '.') =~= cur_component());
    assert(Seq::new(2, |_i: int| '.') =~= parent_component());
    assert(Seq::new(1, |_i: int| '/') =~= root_component());
    let mut i: usize = 0;
    while i < cs.len()
        invariant
            i <= cs@.len(),
            all == seqs_of(cs@),
            all == components(path@),
            well_formed_components(all),
            resolve_steps(all.take(i as int)) == Some(seqs_of(result@)),
            has_root ==> seqs_of(result@).len() > 0 && seqs_of(result@)[0] == root_component(),
            forall|j: int| 0 < j < seqs_of(result@).len() ==> seqs_of(result@)[j] != root_component(),
            Seq::new(1, |_i: int| '.') == cur_component(),
            Seq::new(2, |_i: int| '.') == parent_component(),
            Seq::new(1, |_i: int| '/') == root_component(),
        decreases cs@.len() - i,
    {
        let ghost before = seqs_of(result@);
        proof {
            assert(all.take(i + 1).drop_last() =~= all.take(i as int));
            assert(all.take(i + 1).last() == all[i as int]);
            assert(resolve_steps(all.take(i + 1)) == apply_component(before, all[i as int]));
            assert(root_component() != cur_component()) by {
                assert(root_component()[0] != cur_component()[0]);
            }
            assert(root_component() != parent_component()) by {
                assert(root_component().len() != parent_component().len());
            }
        }
        if is_component(&cs[i], '/', 1) {
            let mut root: Vec<char> = Vec::new();
            root.push('/');
            result.push(root);
            has_root = true;
            proof {
                assert(i == 0);
                assert(seqs_of(result@) =~= before.push(all[i as int]));
            }
        } else if is_component(&cs[i], '.', 1) {
            assert(all[i as int] == cur_component());
        } else if is_component(&cs[i], '.', 2) {
            let n = result.len();
            if n == 0 || is_component(&result[n - 1], '/', 1) {
                proof {
                    assert(resolve_steps(all.take(i + 1)) is None);
                    lemma_resolve_none_extends(all, i + 1);
                }
                return Err(Error::InvalidPath {
                    path: owned(path),
                    reason: owned("Path contains too many '..' components (escapes root)"),
                });
            }
            result.pop();
            proof {
                assert(seqs_of(result@) =~= before.drop_last());
            }
        } else {
            let c = cs[i].clone();
            assert(c@ == cs@[i as int]@);
            result.push(c);
            proof {
                assert(seqs_of(result@) =~= before.push(all[i as int]));
            }
        }
        i = i + 1;
    }
    proof {
        assert(all.take(cs@.len() as int) =~= all);
    }
    if has_root && result.len() == 0 {
        let mut root: Vec<char> = Vec::new();
        root.push('/');
        result.push(root);
    }
    Ok(render_components(&result))
}

/// The home directory of the current user, as `home::home_dir` reports it.
/// Paths here are text, so a home directory that is not valid UTF-8 is
/// reported as unknown rather than altered. Nothing is promised of the
/// value: it depends on the environment.
#[verifier::external_body]
pub(crate) fn home_directory() -> (r: Option<String>) {
    match home::home_dir() {
        Some(p) => p.into_os_string().into_string().ok(),
        None => None,
    }
}

/// Resolving an absolute, well-formed component sequence leaves the root
/// followed by named components only.
proof fn lemma_resolve_steps_plain(cs: Seq<Seq<char>>)
    requires
        well_formed_components(cs),
        cs.len() >= 1,
        cs[0] == root_component(),
        resolve_steps(cs) is Some,
    ensures
        plain_absolute(resolve_steps(cs)->0),
    decreases cs.len(),
{
    if cs.len() == 1 {
        assert(cs.drop_last() =~= Seq::<Seq<char>>::empty());
        assert(root_component()[0] != cur_component()[0]);
        assert(root_component().len() != parent_component().len());
        assert(resolve_steps(cs)->0 =~= seq![root_component()]);
    } else {
        let dl = cs.drop_last();
        assert forall|i: int| 0 <= i < dl.len() implies dl[i] == cs[i] by {}
        if resolve_steps(dl) is None {
            assert(resolve_steps(cs) is None);
        }
        lemma_resolve_steps_plain(dl);
        let r = resolve_steps(dl)->0;
        let c = cs.last();
        assert(c == cs[cs.len() - 1]);
        assert(c.len() > 0 && c != root_component() && c != cur_component());
        assert(!c.contains('/'));
        let n = resolve_steps(cs)->0;
        if c == parent_component() {
            assert(r.len() > 0 && r.last() != root_component());
            assert(r.len() >= 2);
            assert(n == r.drop_last());
            assert forall|i: int| 1 <= i < n.len() implies {
                &&& (#[trigger] n[i]).len() > 0
                &&& n[i] != cur_component()
                &&& n[i] != parent_component()
                &&& !n[i].contains('/')
            } by {
                assert(n[i] == r[i]);
            }
        } else {
            assert(n == r.push(c));
            assert forall|i: int| 1 <= i < n.len() implies {
                &&& (#[trigger] n[i]).len() > 0
                &&& n[i] != cur_component()
                &&& n[i] != parent_component()
                &&& !n[i].contains('/')
            } by {
                if i < r.len() {
                    assert(n[i] == r[i]);
                } else {
                    assert(n[i] == c);
                }
            }
        }
    }
}

/// Resolving the root followed by named components changes nothing.
proof fn lemma_resolve_steps_fixed(r: Seq<Seq<char>>)
    requires
        plain_absolute(r),
    ensures
        resolve_steps(r) == Some(r),
    decreases r.len(),
{
    if r.len() == 1 {
        assert(r.drop_last() =~= Seq::<Seq<char>>::empty());
        assert(root_component()[0] != cur_component()[0]);
        assert(root_component().len() != parent_component().len());
        assert(Seq::<Seq<char>>::empty().push(r[0]) =~= r);
        assert(r.last() == r[0]);
        assert(resolve_steps(Seq::<Seq<char>>::empty()) == Some(Seq::<Seq<char>>::empty()));
        assert(resolve_steps(r.drop_last()) == Some(Seq::<Seq<char>>::empty()));
    } else {
        let dl = r.drop_last();
        assert forall|i: int| 1 <= i < dl.len() implies {
            &&& (#[trigger] dl[i]).len() > 0
            &&& dl[i] != cur_component()
            &&& dl[i] != parent_component()
            &&& !dl[i].contains('/')
        } by {
            assert(dl[i] == r[i]);
        }
        lemma_resolve_steps_fixed(dl);
        let c = r[r.len() - 1];
        assert(c == r.last());
        assert(c != cur_component() && c != parent_component());
        assert(apply_component(dl, c) == Some(dl.push(c)));
        assert(dl.push(c) =~= r);
        assert(resolve_steps(r) == apply_component(dl, c));
    }
}

/// Normalizing against an absolute working directory yields an absolute
/// path with no `.` or `..` component, and normalizing that path again (with
/// any home and working directory) gives it back unchanged.
pub proof fn lemma_normalize_idempotent(
    path: Seq<char>,
    home: Option<Seq<char>>,
    working_dir: Seq<char>,
    home2: Option<Seq<char>>,
    working_dir2: Seq<char>,
)
    requires
        is_absolute(working_dir),
        spec_normalize(path, home, working_dir) is Some,
    ensures
        ({
            let n = spec_normalize(path, home, working_dir)->0;
            &&& is_absolute(n)
            &&& forall|i: int| 0 <= i < components(n).len() ==>
                #[trigger] components(n)[i] != cur_component() && components(n)[i] != parent_component()
            &&& spec_normalize(n, home2, working_dir2) == Some(n)
        }),
{
    let e = spec_expand_tilde(path, home)->0;
    let a = if is_absolute(e) { e } else { join_path(working_dir, e) };
    assert(is_absolute(a)) by {
        if !is_absolute(e) {
            assert(working_dir.len() > 0);
            if working_dir.last() == '/' {
                assert(a == working_dir + e);
            } else {
                assert(a == working_dir + seq!['/'] + e);
            }
            assert(a[0] == working_dir[0]);
        }
    }
    lemma_components_well_formed(a);
    let cs = components(a);
    assert(cs[0] == root_component());
    lemma_resolve_steps_plain(cs);
    let r = resolve_steps(cs)->0;
    let n = render(r);
    assert(spec_normalize(path, home, working_dir) == Some(n));
    lemma_components_render(r);
    assert forall|i: int| 0 <= i < components(n).len() implies
        #[trigger] components(n)[i] != cur_component() && components(n)[i] != parent_component() by {
        if i == 0 {
            assert(root_component()[0] != cur_component()[0]);
            assert(root_component().len() != parent_component().len());
        }
    }
    reveal_strlit("~");
    assert(!starts_with(n, "~"@)) by {
        assert(n[0] == '/');
        assert(n.take(1)[0] == '/');
    }
    lemma_resolve_steps_fixed(r);
}

/// Whether `path` starts with `prefix`.
pub open spec fn starts_with(path: Seq<char>, prefix: Seq<char>) -> bool {
    prefix.len() <= path.len() && path.take(prefix.len() as int) == prefix
}

/// What tilde expansion yields for `path` given the home directory `home`.
pub open spec fn spec_expand_tilde(path: Seq<char>, home: Option<Seq<char>>) -> Option<Seq<char>> {
    if !starts_with(path, "~"@) {
        Some(path)
    } else {
        match home {
            None => None,
            Some(h) => if path == "~"@ {
                Some(h)
            } else if starts_with(path, "~/"@) || starts_with(path, "~\\"@) {
                Some(join_path(h, path.skip(2)))
            } else {
                None
            },
        }
    }
}

/// Expands a leading `~` using the given home directory.
///
/// `~` and `~/path` are supported; `~user` syntax is rejected, and so is any
/// tilde path when the home directory is unknown.
pub fn expand_tilde_with_home(path: &str, home: Option<String>) -> (r: Result<String, Error>)
    ensures
        r is Ok <==> spec_expand_tilde(path@, match home { Some(h) => Some(h@), None => None }) is Some,
        r matches Ok(s) ==> Some(s@) == spec_expand_tilde(path@, match home { Some(h) => Some(h@), None => None }),
        r matches Err(e) ==> e is InvalidPath,
{
    proof {
        reveal_strlit("~");
        reveal_strlit("~/");
        reveal_strlit("~\\");
    }
    let chars = crate::text::chars_of(path);
    let n = chars.len();
    if n == 0 || chars[0] != '~' {
        assert(!starts_with(path@, "~"@)) by {
            if n > 0 { assert(path@.take(1)[0] != "~"@[0]); }
        }
        return Ok(owned(path));
    }
    assert(path@.take(1) =~= "~"@);
    let home = match home {
        Some(h) => h,
        None => {
            return Err(Error::InvalidPath {
                path: owned(path),
                reason: owned("Cannot determine home directory"),
            });
        },
    };
    if n == 1 {
        assert(path@ =~= "~"@);
        return Ok(home);
    }
    assert(path@ != "~"@);
    if chars[1] == '/' || chars[1] == '\\' {
        let mut rest: Vec<char> = Vec::new();
        let mut i: usize = 2;
        while i < n
            invariant
                2 <= i <= n,
                n == chars@.len(),
                chars@ == path@,
                rest@ == path@.subrange(2, i as int),
            decreases n - i,
        {
            rest.push(chars[i]);
            assert(rest@ =~= path@.subrange(2, i + 1));
            i = i + 1;
        }
        assert(rest@ =~= path@.skip(2));
        proof {
            if chars[1] == '/' {
                assert(path@.take(2) =~= "~/"@);
            } else {
                assert(path@.take(2) =~= "~\\"@);
            }
        }
        let rest_string = string_of_chars(&rest);
        return Ok(join(home.as_str(), rest_string.as_str()));
    }
    assert(!starts_with(path@, "~/"@)) by { assert(path@.take(2)[1] != "~/"@[1]); }
    assert(!starts_with(path@, "~\\"@)) by { assert(path@.take(2)[1] != "~\\"@[1]); }
    Err(Error::InvalidPath {
        path: owned(path),
        reason: owned("~user syntax is not supported; use ~ or ~/path"),
    })
}

/// Expands a leading `~` to the current user's home directory.
pub fn expand_tilde(path: &str) -> (r: Result<String, Error>)
    ensures
        !starts_with(path@, "~"@) ==> (r matches Ok(s) && s@ == path@),
        starts_with(path@, "~"@) && path@ != "~"@ && !starts_with(path@, "~/"@)
            && !starts_with(path@, "~\\"@) ==> r is Err,
{
    let home = home_directory();
    expand_tilde_with_home(path, home)
}

/// Where a path ends up after tilde expansion, joining onto the working
/// directory when relative, and resolving `.` and `..`.
pub open spec fn spec_normalize(path: Seq<char>, home: Option<Seq<char>>, working_dir: Seq<char>) -> Option<Seq<char>> {
    match spec_expand_tilde(path, home) {
        None => None,
        Some(e) => spec_resolve(if is_absolute(e) { e } else { join_path(working_dir, e) }),
    }
}

/// Normalizes a path to absolute form, given the home and working directories.
pub fn normalize_with(path: &str, home: Option<String>, working_dir: &str) -> (r: Result<String, Error>)
    ensures
        r is Ok <==> spec_normalize(path@, match home { Some(h) => Some(h@), None => None }, working_dir@) is Some,
        r matches Ok(s) ==> Some(s@) == spec_normalize(path@, match home { Some(h) => Some(h@), None => None }, working_dir@),
{
    let expanded = expand_tilde_with_home(path, home)?;
    let chars = crate::text::chars_of(expanded.as_str());
    let absolute = if chars.len() > 0 && chars[0] == '/' {
        expanded
    } else {
        join(working_dir, expanded.as_str())
    };
    resolve_components(absolute.as_str())
}

/// Normalizes a path to absolute form against the given working directory,
/// expanding `~` to the current user's home directory.
pub fn normalize_in(path: &str, working_dir: &str) -> (r: Result<String, Error>)
    ensures
        exists|h: Option<Seq<char>>| ({
            &&& (r is Ok <==> #[trigger] spec_normalize(path@, h, working_dir@) is Some)
            &&& (r matches Ok(s) ==> Some(s@) == spec_normalize(path@, h, working_dir@))
        }),
        !starts_with(path@, "~"@) ==> (r is Ok <==> spec_normalize(path@, None, working_dir@) is Some),
        !starts_with(path@, "~"@) ==> (r matches Ok(s) ==> Some(s@) == spec_normalize(path@, None, working_dir@)),
{
    let home = home_directory();
    let ghost h = crate::reservation::opt_view(home);
    let r = normalize_with(path, home, working_dir);
    assert(r is Ok <==> spec_normalize(path@, h, working_dir@) is Some);
    r
}

} // verus!
