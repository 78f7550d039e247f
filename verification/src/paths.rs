//! Paths as texts.

use crate::text::{chars_of, concat, text_between};
use vstd::prelude::*;

verus! {

/// Whether a path starts at the root.
pub open spec fn is_absolute(path: Seq<char>) -> bool {
    path.len() > 0 && path[0] == '/'
}

/// A path under a directory. A path that starts at the root stands for itself.
pub open spec fn joined(dir: Seq<char>, path: Seq<char>) -> Seq<char> {
    if is_absolute(path) || dir.len() == 0 {
        path
    } else if dir.last() == '/' {
        dir + path
    } else {
        dir + "/"@ + path
    }
}

/// A path without the slashes that it starts with.
pub open spec fn without_leading_slashes(path: Seq<char>) -> Seq<char>
    decreases path.len(),
{
    if is_absolute(path) {
        without_leading_slashes(path.skip(1))
    } else {
        path
    }
}

/// Where the part behind the last slash begins.
pub open spec fn last_part_start(path: Seq<char>) -> nat
    decreases path.len(),
{
    if path.len() == 0 || path.last() == '/' {
        path.len()
    } else {
        last_part_start(path.drop_last())
    }
}

/// The name of the file that a path leads to: its last part, where empty parts and single dots
/// do not count. A path that ends in two dots leads to no name.
pub open spec fn file_name_of(path: Seq<char>) -> Option<Seq<char>>
    decreases path.len(),
{
    proof {
        lemma_last_part_start(path);
    }
    let start = last_part_start(path);
    let part = path.skip(start as int);
    if part == Seq::<char>::empty() || part == seq!['.'] {
        if start == 0 {
            None
        } else {
            file_name_of(path.take(start - 1))
        }
    } else if part == seq!['.', '.'] {
        None
    } else {
        Some(part)
    }
}

/// The last part begins within the path.
pub proof fn lemma_last_part_start(path: Seq<char>)
    ensures
        last_part_start(path) <= path.len(),
    decreases path.len(),
{
    if path.len() > 0 && path.last() != '/' {
        lemma_last_part_start(path.drop_last());
    }
}

/// Whether all parts of a path are empty or single dots.
pub open spec fn names_nothing(path: Seq<char>) -> bool
    decreases path.len(),
{
    proof {
        lemma_last_part_start(path);
    }
    let start = last_part_start(path);
    let part = path.skip(start as int);
    &&& part == Seq::<char>::empty() || part == seq!['.']
    &&& start == 0 || names_nothing(path.take(start - 1))
}

/// Whether a path leads to the root.
pub open spec fn is_root(path: Seq<char>) -> bool {
    is_absolute(path) && names_nothing(path)
}

/// Where the last dot of a name stands.
pub open spec fn last_dot(name: Seq<char>) -> Option<int>
    decreases name.len(),
{
    if name.len() == 0 {
        None
    } else if name.last() == '.' {
        Some(name.len() - 1)
    } else {
        last_dot(name.drop_last())
    }
}

/// What stands behind the last dot of the name of the file that a path leads to. A dot that a
/// name starts with does not count.
pub open spec fn extension_of(path: Seq<char>) -> Option<Seq<char>> {
    match file_name_of(path) {
        None => None,
        Some(name) => match last_dot(name) {
            None => None,
            Some(at) => if at == 0 {
                None
            } else {
                Some(name.skip(at + 1))
            },
        },
    }
}

/// A path under a directory. A path that starts at the root stands for itself.
pub fn join(dir: &str, path: &str) -> (r: String)
    ensures
        r@ == joined(dir@, path@),
{
    let dir_chars = chars_of(dir);
    let path_chars = chars_of(path);
    if dir_chars.len() == 0 || (path_chars.len() > 0 && path_chars[0] == '/') {
        path.to_string()
    } else if dir_chars[dir_chars.len() - 1] == '/' {
        concat(dir, path)
    } else {
        let start = concat(dir, "/");
        concat(start.as_str(), path)
    }
}

/// A path without the slashes that it starts with.
pub fn trim_leading_slashes(path: &str) -> (r: String)
    ensures
        r@ == without_leading_slashes(path@),
{
    let chars = chars_of(path);
    let mut i: usize = 0;
    assert(chars@.skip(0) =~= chars@);
    while i < chars.len() && chars[i] == '/'
        invariant
            i <= chars.len(),
            chars@ == path@,
            without_leading_slashes(chars@.skip(i as int)) == without_leading_slashes(path@),
        decreases chars.len() - i,
    {
        assert(chars@.skip(i as int).skip(1) =~= chars@.skip(i + 1));
        i += 1;
    }
    let r = text_between(&chars, i, chars.len());
    assert(r@ =~= chars@.skip(i as int));
    r
}

/// Where the part behind the last slash of the first `end` characters begins.
fn part_start(chars: &Vec<char>, end: usize) -> (r: usize)
    requires
        end <= chars@.len(),
    ensures
        r == last_part_start(chars@.take(end as int)),
        r <= end,
{
    let mut i: usize = end;
    while i > 0 && chars[i - 1] != '/'
        invariant
            i <= end <= chars@.len(),
            last_part_start(chars@.take(i as int)) == last_part_start(chars@.take(end as int)),
        decreases i,
    {
        assert(chars@.take(i as int).drop_last() =~= chars@.take(i - 1));
        i -= 1;
    }
    i
}

/// The name of the file that a path leads to.
pub fn file_name(path: &str) -> (r: Option<String>)
    ensures
        match r {
            Some(name) => file_name_of(path@) == Some(name@),
            None => file_name_of(path@) is None,
        },
{
    let chars = chars_of(path);
    let mut end: usize = chars.len();
    assert(chars@.take(end as int) =~= path@);
    loop
        invariant
            end <= chars@.len(),
            file_name_of(chars@.take(end as int)) == file_name_of(path@),
        decreases end,
    {
        let start = part_start(&chars, end);
        let part = text_between(&chars, start, end);
        assert(part@ =~= chars@.take(end as int).skip(start as int));
        let empty = start == end;
        let dot = end - start == 1 && chars[start] == '.';
        assert(dot == (part@ == seq!['.'])) by {
            if dot {
                assert(part@ =~= seq!['.']);
            }
            if part@ == seq!['.'] {
                assert(part@[0] == '.');
            }
        }
        assert(empty == (part@ == Seq::<char>::empty())) by {
            if empty {
                assert(part@ =~= Seq::<char>::empty());
            }
        }
        if empty || dot {
            if start == 0 {
                return None;
            }
            assert(chars@.take(end as int).take(start - 1) =~= chars@.take(start - 1));
            end = start - 1;
        } else {
            let dots = end - start == 2 && chars[start] == '.' && chars[start + 1] == '.';
            assert(dots == (part@ == seq!['.', '.'])) by {
                if dots {
                    assert(part@ =~= seq!['.', '.']);
                }
                if part@ == seq!['.', '.'] {
                    assert(part@[0] == '.' && part@[1] == '.');
                }
            }
            if dots {
                return None;
            }
            return Some(part);
        }
    }
}

/// What stands behind the last dot of the name of the file that a path leads to.
pub fn extension(path: &str) -> (r: Option<String>)
    ensures
        match r {
            Some(ext) => extension_of(path@) == Some(ext@),
            None => extension_of(path@) is None,
        },
{
    let name = match file_name(path) {
        Some(name) => name,
        None => {
            return None;
        },
    };
    let chars = chars_of(name.as_str());
    let mut i: usize = chars.len();
    assert(chars@.take(i as int) =~= name@);
    while i > 0
        invariant
            i <= chars@.len(),
            chars@ == name@,
            file_name_of(path@) == Some(name@),
            last_dot(chars@.take(i as int)) == last_dot(name@),
        decreases i,
    {
        if chars[i - 1] == '.' {
            if i == 1 {
                return None;
            }
            let ext = text_between(&chars, i, chars.len());
            assert(ext@ =~= name@.skip(i as int));
            return Some(ext);
        }
        assert(chars@.take(i as int).drop_last() =~= chars@.take(i - 1));
        i -= 1;
    }
    None
}

/// Whether a path leads to the root.
pub fn leads_to_root(path: &str) -> (r: bool)
    ensures
        r == is_root(path@),
{
    let chars = chars_of(path);
    if chars.len() == 0 || chars[0] != '/' {
        return false;
    }
    let mut end: usize = chars.len();
    assert(chars@.take(end as int) =~= path@);
    loop
        invariant
            end <= chars@.len(),
            is_absolute(path@),
            names_nothing(chars@.take(end as int)) == names_nothing(path@),
        decreases end,
    {
        let start = part_start(&chars, end);
        let ghost part = chars@.take(end as int).skip(start as int);
        assert(part.len() == end - start);
        assert(start < end ==> part[0] == chars@[start as int]);
        let empty = start == end;
        let dot = end - start == 1 && chars[start] == '.';
        assert((empty || dot) == (part == Seq::<char>::empty() || part == seq!['.'])) by {
            if empty {
                assert(part =~= Seq::<char>::empty());
            }
            if dot {
                assert(part =~= seq!['.']);
            }
            if part == seq!['.'] {
                assert(part[0] == '.');
            }
        }
        if !empty && !dot {
            return false;
        }
        if start == 0 {
            return true;
        }
        assert(chars@.take(end as int).take(start - 1) =~= chars@.take(start - 1));
        end = start - 1;
    }
}

/// A path under a directory, other than one that starts at the root, begins with the directory and
/// ends with the path, with exactly one slash at the seam where the directory ends in none.
pub proof fn law_joined(dir: Seq<char>, path: Seq<char>)
    ensures
        path.len() > 0 && path[0] == '/' ==> joined(dir, path) == path,
        dir.len() == 0 ==> joined(dir, path) == path,
        dir.len() > 0 && !(path.len() > 0 && path[0] == '/') ==> {
            let slash: int = if dir[dir.len() - 1] == '/' {
                0
            } else {
                1
            };
            &&& joined(dir, path).len() == dir.len() + slash + path.len()
            &&& joined(dir, path).take(dir.len() as int) == dir
            &&& joined(dir, path).skip(dir.len() + slash) == path
            &&& joined(dir, path)[dir.len() + slash - 1] == '/'
        },
{
    reveal_strlit("/");
    if dir.len() > 0 && !is_absolute(path) {
        let slash: int = if dir[dir.len() - 1] == '/' {
            0
        } else {
            1
        };
        assert(joined(dir, path).take(dir.len() as int) =~= dir);
        assert(joined(dir, path).skip(dir.len() + slash) =~= path);
    }
}

/// The last part of a path holds no slash, and a slash stands before it where it is not the whole
/// path.
pub proof fn law_last_part(path: Seq<char>)
    ensures
        last_part_start(path) <= path.len(),
        forall|i: int| last_part_start(path) <= i < path.len() ==> #[trigger] path[i] != '/',
        last_part_start(path) > 0 ==> path[last_part_start(path) - 1] == '/',
    decreases path.len(),
{
    if path.len() > 0 && path.last() != '/' {
        let rest = path.drop_last();
        law_last_part(rest);
        assert forall|i: int| last_part_start(path) <= i < path.len() implies #[trigger] path[i]
            != '/' by {
            if i < rest.len() {
                assert(rest[i] == path[i]);
            }
        }
    }
}

/// A path without its leading slashes is what is left of it behind them, and starts with none.
pub proof fn law_leading_slashes(path: Seq<char>)
    ensures
        exists|n: int|
            {
                &&& 0 <= n <= path.len()
                &&& without_leading_slashes(path) == #[trigger] path.skip(n)
                &&& forall|i: int| 0 <= i < n ==> #[trigger] path[i] == '/'
                &&& n < path.len() ==> path[n] != '/'
            },
    decreases path.len(),
{
    if is_absolute(path) {
        let rest = path.skip(1);
        law_leading_slashes(rest);
        let n = choose|n: int|
            {
                &&& 0 <= n <= rest.len()
                &&& without_leading_slashes(rest) == #[trigger] rest.skip(n)
                &&& forall|i: int| 0 <= i < n ==> #[trigger] rest[i] == '/'
                &&& n < rest.len() ==> rest[n] != '/'
            };
        assert(rest.skip(n) =~= path.skip(n + 1));
        assert forall|i: int| 0 <= i < n + 1 implies #[trigger] path[i] == '/' by {
            if i > 0 {
                assert(rest[i - 1] == path[i]);
            }
        }
    } else {
        assert(path.skip(0) =~= path);
    }
}

/// The extension of a path whose last part is a name is what stands behind the last dot of that
/// name: it holds no dot, a dot stands before it, and something stands before that dot. Where the
/// name holds no dot but perhaps its first character, there is none.
pub proof fn law_extension(dir: Seq<char>, name: Seq<char>)
    requires
        name.len() > 0,
        name != seq!['.'],
        name != seq!['.', '.'],
        forall|i: int| 0 <= i < name.len() ==> #[trigger] name[i] != '/',
        dir.len() == 0 || dir[dir.len() - 1] == '/',
    ensures
        match extension_of(dir + name) {
            Some(ext) => {
                let at = name.len() - ext.len() - 1;
                &&& 0 < at < name.len()
                &&& name[at] == '.'
                &&& name.skip(at + 1) == ext
                &&& forall|i: int| 0 <= i < ext.len() ==> #[trigger] ext[i] != '.'
            },
            None => forall|i: int| 0 < i < name.len() ==> #[trigger] name[i] != '.',
        },
{
    let path = dir + name;
    lemma_last_part_is(path, dir.len() as int);
    assert(path.skip(dir.len() as int) =~= name);
    lemma_last_dot(name);
    match last_dot(name) {
        Some(at) => {
            if at > 0 {
                let ext = name.skip(at + 1);
                assert forall|i: int| 0 <= i < ext.len() implies #[trigger] ext[i] != '.' by {
                    assert(name[at + 1 + i] != '.');
                }
            }
        },
        None => {},
    }
}

proof fn lemma_last_part_is(path: Seq<char>, start: int)
    requires
        0 <= start <= path.len(),
        forall|i: int| start <= i < path.len() ==> #[trigger] path[i] != '/',
        start > 0 ==> path[start - 1] == '/',
    ensures
        last_part_start(path) == start,
    decreases path.len(),
{
    if start < path.len() {
        let rest = path.drop_last();
        assert forall|i: int| start <= i < rest.len() implies #[trigger] rest[i] != '/' by {
            assert(path[i] != '/');
        }
        assert(path[path.len() - 1] != '/');
        lemma_last_part_is(rest, start);
    }
}

proof fn lemma_last_dot(name: Seq<char>)
    ensures
        match last_dot(name) {
            Some(at) => {
                &&& 0 <= at < name.len()
                &&& name[at] == '.'
                &&& forall|i: int| at < i < name.len() ==> #[trigger] name[i] != '.'
            },
            None => forall|i: int| 0 <= i < name.len() ==> #[trigger] name[i] != '.',
        },
    decreases name.len(),
{
    if name.len() > 0 && name.last() != '.' {
        let rest = name.drop_last();
        lemma_last_dot(rest);
        assert forall|i: int| 0 <= i < name.len() && (last_dot(name) matches Some(at) ==> at
            < i) implies #[trigger] name[i] != '.' by {
            if i < rest.len() {
                assert(rest[i] == name[i]);
            }
        }
    }
}

/// Which paths name nothing, by their characters.
proof fn lemma_names_nothing(path: Seq<char>)
    ensures
        names_nothing(path) <==> {
            &&& forall|i: int| 0 <= i < path.len() ==> #[trigger] path[i] == '/' || path[i] == '.'
            &&& forall|i: int|
                0 < i < path.len() ==> !(#[trigger] path[i] == '.' && path[i - 1] == '.')
        },
    decreases path.len(),
{
    law_last_part(path);
    lemma_last_part_start(path);
    let start = last_part_start(path) as int;
    let part = path.skip(start);
    assert forall|i: int| 0 <= i < part.len() implies #[trigger] part[i] == path[start + i] by {}
    if start > 0 {
        let before = path.take(start - 1);
        lemma_names_nothing(before);
        if names_nothing(path) {
            assert(part == Seq::<char>::empty() || part == seq!['.']);
            assert(part.len() <= 1);
            assert(part.len() == 1 ==> part[0] == '.');
            assert(path[start - 1] == '/');
            assert(names_nothing(before));
            assert forall|i: int| 0 <= i < path.len() implies #[trigger] path[i] == '/' || path[i]
                == '.' by {
                if i < start - 1 {
                    assert(before[i] == path[i]);
                } else if i >= start {
                    assert(part[i - start] == path[start + (i - start)]);
                    assert(i == start);
                }
            }
            assert forall|i: int| 0 < i < path.len() implies !(#[trigger] path[i] == '.' && path[i
                - 1] == '.') by {
                if i < start - 1 {
                    assert(before[i] == path[i]);
                    assert(before[i - 1] == path[i - 1]);
                } else if i > start {
                    assert(part.len() > 1);
                }
            }
        }
    }
    if (forall|i: int| 0 <= i < path.len() ==> #[trigger] path[i] == '/' || path[i] == '.') && (
    forall|i: int| 0 < i < path.len() ==> !(#[trigger] path[i] == '.' && path[i - 1] == '.')) {
        if part.len() > 0 {
            assert(part[0] == path[start]);
            if part.len() > 1 {
                assert(part[1] == path[start + 1]);
                assert(path[start + 1] == '.' && path[start] == '.');
            }
            assert(part =~= seq!['.']);
        } else {
            assert(part =~= Seq::<char>::empty());
        }
        if start > 0 {
            let before = path.take(start - 1);
            assert forall|i: int| 0 <= i < before.len() implies #[trigger] before[i] == '/'
                || before[i] == '.' by {
                assert(before[i] == path[i]);
            }
            assert forall|i: int| 0 < i < before.len() implies !(#[trigger] before[i] == '.'
                && before[i - 1] == '.') by {
                assert(before[i] == path[i]);
                assert(before[i - 1] == path[i - 1]);
            }
        }
    } else if start == 0 && names_nothing(path) {
        assert(part =~= path);
    }
}

/// A path leads to the root exactly where it starts with a slash and holds nothing but slashes and
/// single dots.
pub proof fn law_root(path: Seq<char>)
    ensures
        is_root(path) <==> {
            &&& path.len() > 0
            &&& path[0] == '/'
            &&& forall|i: int| 0 <= i < path.len() ==> #[trigger] path[i] == '/' || path[i] == '.'
            &&& forall|i: int|
                0 < i < path.len() ==> !(#[trigger] path[i] == '.' && path[i - 1] == '.')
        },
{
    lemma_names_nothing(path);
}

} // verus!
