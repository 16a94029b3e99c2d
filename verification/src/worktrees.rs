//! Which branch a worktree's directory belongs to.

use vstd::prelude::*;

use crate::overview;
use crate::text;
use crate::text::{chars_of, string_of, text_eq};

verus! {

/// A part of a path as a component: neither empty nor the directory itself.
pub open spec fn as_component(part: Seq<char>) -> Seq<Seq<char>> {
    if part.len() == 0 || part == seq!['.'] {
        Seq::empty()
    } else {
        seq![part]
    }
}

/// Where the first slash from `i` on stands, or the end.
pub open spec fn next_slash(path: Seq<char>, i: int) -> int
    decreases path.len() - i,
{
    if i >= path.len() || path[i] == '/' {
        i
    } else {
        next_slash(path, i + 1)
    }
}

proof fn lemma_next_slash(path: Seq<char>, i: int)
    requires
        0 <= i <= path.len(),
    ensures
        i <= next_slash(path, i) <= path.len(),
    decreases path.len() - i,
{
    if i < path.len() && path[i] != '/' {
        lemma_next_slash(path, i + 1);
    }
}

/// The components of a path from place `i` on.
pub open spec fn components(path: Seq<char>, i: int) -> Seq<Seq<char>>
    decreases path.len() - i,
    when 0 <= i <= path.len()
    via components_end
{
    let end = next_slash(path, i);
    let first = as_component(path.subrange(i, end));
    if end < path.len() {
        first + components(path, end + 1)
    } else {
        first
    }
}

#[via_fn]
proof fn components_end(path: Seq<char>, i: int) {
    lemma_next_slash(path, i);
}

/// A name with every double underscore replaced by a slash.
pub open spec fn with_slashes(name: Seq<char>) -> Seq<char>
    decreases name.len(),
{
    if name.len() < 2 {
        name
    } else if name[0] == '_' && name[1] == '_' {
        seq!['/'] + with_slashes(name.skip(2))
    } else {
        seq![name[0]] + with_slashes(name.skip(1))
    }
}

/// The branch of the innermost worktree among components: a directory below
/// `.clust/worktrees`, named after its branch.
pub open spec fn branch_in(parts: Seq<Seq<char>>) -> Option<Seq<char>>
    decreases parts.len(),
{
    let n = parts.len() as int;
    if n < 3 {
        None
    } else if parts[n - 3] == ".clust"@ && parts[n - 2] == "worktrees"@ {
        if parts[n - 1] == seq!['.', '.'] {
            None
        } else {
            Some(with_slashes(parts[n - 1]))
        }
    } else {
        branch_in(parts.drop_last())
    }
}

fn split_components(path: &Vec<char>) -> (parts: Vec<String>)
    ensures
        text::strings_view(parts@) == components(path@, 0),
{
    let mut parts: Vec<String> = Vec::new();
    let mut i: usize = 0;
    let mut done = false;
    assert(text::strings_view(parts@) + components(path@, 0) =~= components(path@, 0));
    while !done
        invariant
            i <= path@.len(),
            !done ==> text::strings_view(parts@) + components(path@, i as int) == components(path@, 0),
            done ==> text::strings_view(parts@) == components(path@, 0),
        decreases
                path@.len() - i,
                if done {
                    0int
                } else {
                    1
                },
    {
        let ghost before = text::strings_view(parts@);
        let mut end: usize = i;
        while end < path.len() && path[end] != '/'
            invariant
                i <= end <= path@.len(),
                next_slash(path@, i as int) == next_slash(path@, end as int),
            decreases path@.len() - end,
        {
            end += 1;
        }
        let part = string_of(path.as_slice(), i, end);
        assert(part@ =~= path@.subrange(i as int, end as int));
        let itself = end - i == 1 && path[i] == '.';
        proof {
            if itself {
                assert(part@ =~= seq!['.']);
            } else if part@ == seq!['.'] {
                assert(part@[0] == '.');
            }
        }
        if end > i && !itself {
            parts.push(part);
            assert(text::strings_view(parts@) =~= before.push(part@));
        }
        assert(text::strings_view(parts@) =~= before + as_component(part@));
        if end < path.len() {
            i = end + 1;
            assert(text::strings_view(parts@) + components(path@, i as int) =~= before + (as_component(
                part@,
            ) + components(path@, i as int)));
        } else {
            done = true;
        }
    }
    parts
}

fn slashes_for(name: &Vec<char>) -> (s: String)
    ensures
        s@ == with_slashes(name@),
{
    let mut s = String::new();
    let mut i: usize = 0;
    assert(name@.skip(0) =~= name@);
    assert(s@ + with_slashes(name@) =~= with_slashes(name@));
    while i < name.len()
        invariant
            i <= name@.len(),
            s@ + with_slashes(name@.skip(i as int)) == with_slashes(name@),
        decreases name@.len() - i,
    {
        let ghost rest = name@.skip(i as int);
        let ghost before = s@;
        if i + 1 < name.len() && name[i] == '_' && name[i + 1] == '_' {
            s.push('/');
            assert(rest.skip(2) =~= name@.skip(i + 2));
            i += 2;
        } else {
            s.push(name[i]);
            assert(rest.skip(1) =~= name@.skip(i + 1));
            proof {
                if rest.len() < 2 {
                    assert(rest =~= seq![rest[0]] + with_slashes(rest.skip(1)));
                }
            }
            i += 1;
        }
        assert(s@ + with_slashes(name@.skip(i as int)) =~= before + with_slashes(rest));
    }
    assert(name@.skip(i as int) =~= Seq::<char>::empty());
    assert(s@ + with_slashes(name@.skip(i as int)) =~= s@);
    s
}

/// Detect the current worktree's branch name from the working directory path.
/// Looks for the `.clust/worktrees/{serialized_branch}` convention.
pub fn detect_current_worktree_branch(cwd: &str) -> (branch: Option<String>)
    ensures
        overview::opt_view(branch) == branch_in(components(cwd@, 0)),
{
    let path = chars_of(cwd);
    let parts = split_components(&path);
    let ghost all = text::strings_view(parts@);
    let mut n: usize = parts.len();
    assert(all.take(n as int) =~= all);
    while n >= 3
        invariant
            n <= parts@.len(),
            all == text::strings_view(parts@),
            all == components(cwd@, 0),
            branch_in(all) == branch_in(all.take(n as int)),
        decreases n,
    {
        let ghost now = all.take(n as int);
        assert(now[n - 3] == parts@[n - 3]@ && now[n - 2] == parts@[n - 2]@);
        assert(now[n - 1] == parts@[n - 1]@);
        if text_eq(parts[n - 3].as_str(), ".clust") && text_eq(
            parts[n - 2].as_str(),
            "worktrees",
        ) {
            let name = chars_of(parts[n - 1].as_str());
            if name.len() == 2 && name[0] == '.' && name[1] == '.' {
                assert(name@ =~= seq!['.', '.']);
                return None;
            }
            proof {
                if name@ == seq!['.', '.'] {
                    assert(name@[0] == '.' && name@[1] == '.');
                }
            }
            return Some(slashes_for(&name));
        }
        assert(now.drop_last() =~= all.take(n - 1));
        n -= 1;
    }
    None
}

/// How a branch's name is written as that of a directory: slashes become double underscores.
pub open spec fn without_slashes(name: Seq<char>) -> Seq<char>
    decreases name.len(),
{
    if name.len() == 0 {
        name
    } else if name[0] == '/' {
        seq!['_', '_'] + without_slashes(name.skip(1))
    } else {
        seq![name[0]] + without_slashes(name.skip(1))
    }
}

/// A branch whose name has no underscore is found again from the directory that is named after
/// it.
pub proof fn branch_is_found_again(name: Seq<char>)
    requires
        forall|i: int| 0 <= i < name.len() ==> name[i] != '_',
    ensures
        with_slashes(without_slashes(name)) == name,
    decreases name.len(),
{
    if name.len() > 0 {
        let rest = name.skip(1);
        branch_is_found_again(rest);
        let dir = without_slashes(name);
        if name[0] == '/' {
            assert(dir.skip(2) =~= without_slashes(rest));
            assert(dir[0] == '_' && dir[1] == '_');
        } else {
            assert(dir.skip(1) =~= without_slashes(rest));
            if dir.len() < 2 {
                assert(without_slashes(rest).len() == 0);
                assert(rest =~= with_slashes(without_slashes(rest)));
            }
        }
        assert(with_slashes(dir) =~= name);
    }
}

proof fn lemma_next_slash_is(path: Seq<char>, i: int, end: int)
    requires
        0 <= i <= end <= path.len(),
        end < path.len() ==> path[end] == '/',
        forall|k: int| i <= k < end ==> path[k] != '/',
    ensures
        next_slash(path, i) == end,
    decreases end - i,
{
    if i < end {
        lemma_next_slash_is(path, i + 1, end);
    }
}

proof fn lemma_slash_found(path: Seq<char>, i: int)
    requires
        0 <= i <= path.len(),
    ensures
        i <= next_slash(path, i) <= path.len(),
        next_slash(path, i) < path.len() ==> path[next_slash(path, i)] == '/',
        forall|k: int| i <= k < next_slash(path, i) ==> path[k] != '/',
    decreases path.len() - i,
{
    if i < path.len() && path[i] != '/' {
        lemma_slash_found(path, i + 1);
    }
}

proof fn lemma_components_from(path: Seq<char>, whole: Seq<char>, at: int, i: int)
    requires
        0 <= i <= path.len(),
        0 <= at,
        whole.len() == at + path.len(),
        whole.skip(at) == path,
    ensures
        components(whole, at + i) == components(path, i),
    decreases path.len() - i,
{
    lemma_slash_found(path, i);
    let end = next_slash(path, i);
    assert forall|k: int| at + i <= k < at + end implies whole[k] != '/' by {
        assert(whole[k] == whole.skip(at)[k - at]);
        assert(path[k - at] != '/');
    }
    if end < path.len() {
        assert(whole[at + end] == whole.skip(at)[end]);
    }
    lemma_next_slash_is(whole, at + i, at + end);
    assert(whole.subrange(at + i, at + end) =~= path.subrange(i, end)) by {
        assert forall|k: int| 0 <= k < end - i implies #[trigger] whole.subrange(at + i, at + end)[k]
            == path.subrange(i, end)[k] by {
            assert(whole[at + i + k] == whole.skip(at)[i + k]);
        }
    }
    if end < path.len() {
        lemma_components_from(path, whole, at, end + 1);
    }
}

proof fn lemma_components_joined(a: Seq<char>, b: Seq<char>, i: int)
    requires
        0 <= i <= a.len(),
    ensures
        components(a + seq!['/'] + b, i) == components(a, i) + components(b, 0),
    decreases a.len() - i,
{
    let whole = a + seq!['/'] + b;
    lemma_slash_found(a, i);
    let end = next_slash(a, i);
    assert forall|k: int| i <= k < end implies whole[k] != '/' by {
        assert(whole[k] == a[k]);
    }
    if end < a.len() {
        assert(whole[end] == a[end]);
    }
    lemma_next_slash_is(whole, i, end);
    assert(whole.subrange(i, end) =~= a.subrange(i, end));
    if end < a.len() {
        lemma_components_joined(a, b, end + 1);
        assert(components(whole, i) =~= components(a, i) + components(b, 0));
    } else {
        assert(whole.skip(a.len() as int + 1) =~= b);
        lemma_components_from(b, whole, a.len() as int + 1, 0);
        assert(components(whole, i) =~= components(a, i) + components(b, 0));
    }
}

/// The parts of a path are the parts of its halves: what comes before a slash, and what follows.
pub proof fn parts_of_paths_are_joined(a: Seq<char>, b: Seq<char>)
    ensures
        components(a + seq!['/'] + b, 0) == components(a, 0) + components(b, 0),
{
    lemma_components_joined(a, b, 0);
}

/// A name without a slash is a single part, unless it stands for the directory itself.
pub proof fn names_are_single_parts(name: Seq<char>)
    requires
        forall|i: int| 0 <= i < name.len() ==> #[trigger] name[i] != '/',
        name.len() > 0,
        name != seq!['.'],
    ensures
        components(name, 0) == seq![name],
{
    lemma_next_slash_is(name, 0, name.len() as int);
    assert(name.subrange(0, name.len() as int) =~= name);
}

/// The worktree of a branch lies in a directory of the repository that is named after the branch,
/// and whoever is in that directory is in the worktree of the branch.
pub proof fn worktree_directories_belong_to_their_branch(root: Seq<char>, branch: Seq<char>)
    requires
        branch.len() > 0,
        branch != seq!['.'],
        branch != seq!['.', '.'],
        forall|i: int| 0 <= i < branch.len() ==> #[trigger] branch[i] != '_',
    ensures
        branch_in(
            components(root + "/.clust/worktrees/"@ + without_slashes(branch), 0),
        ) == Some(branch),
{
    reveal_strlit("/.clust/worktrees/");
    reveal_strlit(".clust");
    reveal_strlit("worktrees");
    let dir = without_slashes(branch);
    lemma_dir_has_no_slash(branch);
    branch_is_found_again(branch);
    let slash = seq!['/'];
    let path = root + "/.clust/worktrees/"@ + dir;
    let place = ".clust"@ + slash + ("worktrees"@ + slash + dir);
    assert(path =~= root + slash + place);
    parts_of_paths_are_joined(root, place);
    parts_of_paths_are_joined(".clust"@, "worktrees"@ + slash + dir);
    parts_of_paths_are_joined("worktrees"@, dir);
    names_are_single_parts(".clust"@);
    names_are_single_parts("worktrees"@);
    if dir == seq!['.'] {
        assert(with_slashes(dir) =~= seq!['.']);
    }
    if dir == seq!['.', '.'] {
        reveal_with_fuel(with_slashes, 3);
        assert(dir.skip(1) =~= seq!['.']);
        assert(with_slashes(dir) =~= seq!['.', '.']);
    }
    names_are_single_parts(dir);
    let parts = components(path, 0);
    let before = components(root, 0);
    assert(parts =~= before + seq![".clust"@, "worktrees"@, dir]);
    let n = parts.len() as int;
    assert(parts[n - 3] == ".clust"@ && parts[n - 2] == "worktrees"@ && parts[n - 1] == dir);
}

proof fn lemma_dir_has_no_slash(name: Seq<char>)
    ensures
        forall|i: int|
            0 <= i < without_slashes(name).len() ==> #[trigger] without_slashes(name)[i] != '/',
        name.len() > 0 ==> without_slashes(name).len() > 0,
    decreases name.len(),
{
    if name.len() > 0 {
        lemma_dir_has_no_slash(name.skip(1));
        let dir = without_slashes(name);
        let rest = without_slashes(name.skip(1));
        let n = dir.len() - rest.len();
        assert forall|i: int| 0 <= i < dir.len() implies #[trigger] dir[i] != '/' by {
            if i >= n {
                assert(dir[i] == rest[i - n]);
            }
        }
    }
}

/// Slashes at the end of a path, and a dot for the directory itself, are no parts of it.
pub proof fn dots_and_slashes_are_no_parts(path: Seq<char>)
    ensures
        components(path + seq!['/'] + seq!['.'], 0) == components(path, 0),
        components(path + seq!['/'] + Seq::empty(), 0) == components(path, 0),
{
    let dot = seq!['.'];
    let nothing = Seq::<char>::empty();
    parts_of_paths_are_joined(path, dot);
    parts_of_paths_are_joined(path, nothing);
    lemma_next_slash_is(dot, 0, 1);
    lemma_next_slash_is(nothing, 0, 0);
    assert(dot.subrange(0, 1) =~= dot);
    assert(nothing.subrange(0, 0) =~= nothing);
    assert(components(dot, 0) =~= Seq::<Seq<char>>::empty());
    assert(components(nothing, 0) =~= Seq::<Seq<char>>::empty());
    assert(components(path, 0) + components(dot, 0) =~= components(path, 0));
    assert(components(path, 0) + components(nothing, 0) =~= components(path, 0));
}

/// A path that does not lead below the worktrees of a repository belongs to none.
pub proof fn other_places_belong_to_no_worktree(parts: Seq<Seq<char>>)
    requires
        forall|i: int| 0 <= i < parts.len() ==> #[trigger] parts[i] != ".clust"@,
    ensures
        branch_in(parts) is None,
    decreases parts.len(),
{
    if parts.len() >= 3 {
        assert(parts[parts.len() - 3] != ".clust"@);
        let front = parts.drop_last();
        assert forall|i: int| 0 <= i < front.len() implies #[trigger] front[i] != ".clust"@ by {
            assert(front[i] == parts[i]);
        }
        other_places_belong_to_no_worktree(front);
    }
}

} // verus!
