//! Project and task names inferred from a git repository's layout.
//!
//! Finding and reading the repository is the caller's part; these functions
//! decide the names from what was read.

use vstd::prelude::*;
use crate::path::components::{components, cur_component, parent_component, path_components, root_component, seqs_of};
use crate::path::normalize::starts_with;
use crate::path::relationship::string_of_chars;
use crate::operations::reserve_group::{parent_of, spec_parent};
use crate::text::chars_of;

verus! {

/// The last component of `path` when it names an entry: `None` for an
/// empty path, the root, or a path ending in `.` or `..`.
pub open spec fn spec_file_name(path: Seq<char>) -> Option<Seq<char>> {
    let cs = components(path);
    if cs.len() == 0 {
        None
    } else {
        let last = cs.last();
        if last == root_component() || last == cur_component() || last == parent_component() {
            None
        } else {
            Some(last)
        }
    }
}

/// The last component of `path` when it names an entry.
pub fn file_name(path: &str) -> (r: Option<String>)
    ensures
        match spec_file_name(path@) {
            Some(n) => r matches Some(s) && s@ == n,
            None => r is None,
        },
{
    let cs = path_components(path);
    if cs.len() == 0 {
        return None;
    }
    let last = &cs[cs.len() - 1];
    assert(seqs_of(cs@).last() == last@);
    let is_root = last.len() == 1 && last[0] == '/';
    let is_cur = last.len() == 1 && last[0] == '.';
    let is_parent = last.len() == 2 && last[0] == '.' && last[1] == '.';
    proof {
        if is_root { assert(last@ =~= root_component()); }
        if is_cur { assert(last@ =~= cur_component()); }
        if is_parent { assert(last@ =~= parent_component()); }
    }
    if is_root || is_cur || is_parent {
        None
    } else {
        Some(string_of_chars(last))
    }
}

/// The repository name: the name of the directory that holds the
/// repository's common git directory.
pub open spec fn spec_project_name(common_dir: Seq<char>) -> Option<Seq<char>> {
    match spec_parent(common_dir) {
        Some(p) => spec_file_name(p),
        None => None,
    }
}

/// The project inferred from the repository's (canonical) common git
/// directory: the name of the directory that holds it.
pub fn project_from_common_dir(common_dir: &str) -> (r: Option<String>)
    ensures
        match spec_project_name(common_dir@) {
            Some(n) => r matches Some(s) && s@ == n,
            None => r is None,
        },
{
    match parent_of(common_dir) {
        Some(p) => file_name(p.as_str()),
        None => None,
    }
}

/// The branch a `HEAD` reference names: the part after `refs/heads/`, or
/// `None` for any other reference.
pub open spec fn spec_branch_name(head_ref: Seq<char>) -> Option<Seq<char>> {
    if starts_with(head_ref, "refs/heads/"@) {
        Some(head_ref.skip("refs/heads/"@.len() as int))
    } else {
        None
    }
}

/// The branch named by the reference `head_ref`, if it is a local branch.
pub fn branch_name(head_ref: &str) -> (r: Option<String>)
    ensures
        match spec_branch_name(head_ref@) {
            Some(n) => r matches Some(s) && s@ == n,
            None => r is None,
        },
{
    let prefix = chars_of("refs/heads/");
    let chars = chars_of(head_ref);
    proof { reveal_strlit("refs/heads/"); }
    if chars.len() < prefix.len() {
        return None;
    }
    let mut i: usize = 0;
    while i < prefix.len()
        invariant
            prefix@ == "refs/heads/"@,
            chars@ == head_ref@,
            prefix@.len() <= chars@.len(),
            i <= prefix@.len(),
            forall|j: int| 0 <= j < i ==> chars@[j] == prefix@[j],
        decreases prefix@.len() - i,
    {
        if chars[i] != prefix[i] {
            assert(chars@.take(prefix@.len() as int)[i as int] != prefix@[i as int]);
            return None;
        }
        i = i + 1;
    }
    assert(chars@.take(prefix@.len() as int) =~= prefix@);
    let mut rest: Vec<char> = Vec::new();
    let mut k: usize = prefix.len();
    while k < chars.len()
        invariant
            prefix@.len() <= k <= chars@.len(),
            rest@ == chars@.subrange(prefix@.len() as int, k as int),
        decreases chars@.len() - k,
    {
        rest.push(chars[k]);
        assert(rest@ =~= chars@.subrange(prefix@.len() as int, k + 1));
        k = k + 1;
    }
    assert(rest@ =~= chars@.skip(prefix@.len() as int));
    Some(string_of_chars(&rest))
}

/// The task inferred from a repository: in a linked worktree, the name of
/// the worktree's directory; otherwise the current branch.
pub open spec fn spec_task_name(is_worktree: bool, work_dir: Option<Seq<char>>, head_ref: Option<Seq<char>>) -> Option<Seq<char>> {
    if is_worktree {
        match work_dir {
            Some(w) => spec_file_name(w),
            None => None,
        }
    } else {
        match head_ref {
            Some(h) => spec_branch_name(h),
            None => None,
        }
    }
}

/// The task inferred from what was read of a repository: whether it is a
/// linked worktree, its working directory, and the reference `HEAD` names
/// (`None` when detached or not valid UTF-8).
pub fn task_from_repository(is_worktree: bool, work_dir: Option<&str>, head_ref: Option<&str>) -> (r: Option<String>)
    ensures
        match spec_task_name(is_worktree, match work_dir { Some(w) => Some(w@), None => None },
            match head_ref { Some(h) => Some(h@), None => None }) {
            Some(n) => r matches Some(s) && s@ == n,
            None => r is None,
        },
{
    if is_worktree {
        match work_dir {
            Some(w) => file_name(w),
            None => None,
        }
    } else {
        match head_ref {
            Some(h) => branch_name(h),
            None => None,
        }
    }
}

} // verus!
