//! Which archive entry paths may be written below the install root.

use vstd::prelude::*;

verus! {

/// A path separator inside an archive entry name.
pub open spec fn is_sep(c: char) -> bool {
    c == '/' || c == '\\'
}

/// A `..` component begins at position `i` of `p`.
pub open spec fn parent_at(p: Seq<char>, i: int) -> bool {
    &&& 0 <= i
    &&& i + 1 < p.len()
    &&& (i == 0 || is_sep(p[i - 1]))
    &&& p[i] == '.'
    &&& p[i + 1] == '.'
    &&& (i + 2 == p.len() || is_sep(p[i + 2]))
}

/// `p` holds a `..` component.
pub open spec fn has_parent_component(p: Seq<char>) -> bool {
    exists|i: int| parent_at(p, i)
}

/// `p` is rooted: it begins with a separator.
pub open spec fn is_rooted(p: Seq<char>) -> bool {
    p.len() > 0 && is_sep(p[0])
}

/// `p` carries a drive prefix: a `:` in its first component.
pub open spec fn has_drive_prefix(p: Seq<char>) -> bool {
    exists|i: int|
        0 <= i < p.len() && p[i] == ':' && forall|j: int| 0 <= j < i ==> !is_sep(#[trigger] p[j])
}

/// A relative path that cannot leave the directory it is resolved against.
pub open spec fn stays_inside(p: Seq<char>) -> bool {
    !is_rooted(p) && !has_drive_prefix(p) && !has_parent_component(p)
}

/// An archive entry names a directory: its name ends with `/`.
pub open spec fn is_dir_entry(name: Seq<char>) -> bool {
    name.len() > 0 && name.last() == '/'
}

/// An entry name that may be extracted: not empty, and it stays inside.
pub open spec fn safe_entry_path(name: Seq<char>) -> bool {
    name.len() > 0 && stays_inside(name)
}

/// Joining an extraction root that stays inside (empty, or ending in a
/// separator) with an accepted entry name gives a path that stays inside as
/// well: no accepted entry is written outside the install root.
pub proof fn lemma_join_stays_inside(root: Seq<char>, name: Seq<char>)
    requires
        stays_inside(root),
        root.len() == 0 || is_sep(root.last()),
        safe_entry_path(name),
    ensures
        stays_inside(root + name),
{
    let p = root + name;
    let r = root.len() as int;
    if root.len() == 0 {
        assert(p =~= name);
        return;
    }
    assert(!is_rooted(p)) by {
        assert(p[0] == root[0]);
    }
    assert(!has_drive_prefix(p)) by {
        if has_drive_prefix(p) {
            let k = choose|k: int|
                0 <= k < p.len() && p[k] == ':' && forall|j: int| 0 <= j < k ==> !is_sep(#[trigger] p[j]);
            if k < r {
                assert forall|j: int| 0 <= j < k implies !is_sep(#[trigger] root[j]) by {
                    assert(p[j] == root[j]);
                }
                assert(p[k] == root[k]);
                assert(has_drive_prefix(root));
            } else {
                assert(p[r - 1] == root[r - 1]);
                assert(!is_sep(p[r - 1]));
            }
        }
    }
    assert forall|i: int| !parent_at(p, i) by {
        if parent_at(p, i) {
            if i + 2 <= r {
                if i + 2 == r {
                    assert(p[i + 1] == root[r - 1]);
                } else {
                    assert(p[i] == root[i]);
                    assert(p[i + 1] == root[i + 1]);
                    assert(p[i + 2] == root[i + 2]);
                    if i > 0 {
                        assert(p[i - 1] == root[i - 1]);
                    }
                    assert(parent_at(root, i));
                }
            } else if i + 1 == r {
                assert(p[i] == root[r - 1]);
            } else {
                let k = i - r;
                assert(p[i] == name[k]);
                assert(p[i + 1] == name[k + 1]);
                if i + 2 < p.len() {
                    assert(p[i + 2] == name[k + 2]);
                }
                if k > 0 {
                    assert(p[i - 1] == name[k - 1]);
                }
                assert(parent_at(name, k));
            }
        }
    }
}

/// Whether `c` is a path separator.
pub fn is_sep_char(c: char) -> (r: bool)
    ensures
        r == is_sep(c),
{
    c == '/' || c == '\\'
}

/// Whether an archive entry names a directory.
pub fn is_directory_entry(name: &str) -> (r: bool)
    ensures
        r == is_dir_entry(name@),
{
    let n = name.unicode_len();
    n > 0 && name.get_char(n - 1) == '/'
}

/// Whether an archive entry name may be extracted below the install root:
/// it is not empty, not rooted, has no drive prefix and no `..` component.
pub fn is_safe_entry_path(name: &str) -> (r: bool)
    ensures
        r == safe_entry_path(name@),
{
    let n = name.unicode_len();
    if n == 0 {
        return false;
    }
    if is_sep_char(name.get_char(0)) {
        return false;
    }
    let mut in_first = true;
    let mut i: usize = 0;
    while i < n
        invariant
            i <= n,
            n == name@.len(),
            n > 0,
            !is_sep(name@[0]),
            in_first == (forall|j: int| 0 <= j < i ==> !is_sep(#[trigger] name@[j])),
            forall|k: int| 0 <= k < i ==> !parent_at(name@, k),
            forall|k: int|
                0 <= k < i && name@[k] == ':' ==> exists|j: int|
                    0 <= j < k && is_sep(#[trigger] name@[j]),
        decreases n - i,
    {
        let c = name.get_char(i);
        if c == ':' && in_first {
            assert(name@[i as int] == ':');
            assert(has_drive_prefix(name@));
            return false;
        }
        if c == '.' && i + 1 < n && (i == 0 || is_sep_char(name.get_char(i - 1))) && name.get_char(
            i + 1,
        ) == '.' && (i + 2 == n || is_sep_char(name.get_char(i + 2))) {
            assert(parent_at(name@, i as int));
            return false;
        }
        if is_sep_char(c) {
            in_first = false;
            assert(is_sep(name@[i as int]));
        }
        i = i + 1;
    }
    proof {
        assert(!has_drive_prefix(name@)) by {
            if has_drive_prefix(name@) {
                let k = choose|k: int|
                    0 <= k < name@.len() && name@[k] == ':' && forall|j: int|
                        0 <= j < k ==> !is_sep(#[trigger] name@[j]);
                let j = choose|j: int| 0 <= j < k && is_sep(#[trigger] name@[j]);
                assert(!is_sep(name@[j]));
            }
        }
    }
    true
}

} // verus!
