//! Naming rules for relative file paths.
//!
//! A path is a text whose components are separated by `/`.

use vstd::prelude::*;
use crate::text::{push_char, same_text};

verus! {

/// How one character of a path is written in the name of a patch record:
/// the separator `/` as `--`, the character `-` as `-_`, and every other
/// character as itself. No other pair begins with `-`, so the path can be
/// read back from the name.
pub open spec fn escaped_char(c: char) -> Seq<char> {
    if c == '/' {
        seq!['-', '-']
    } else if c == '-' {
        seq!['-', '_']
    } else {
        seq![c]
    }
}

/// The path with each of its characters escaped.
pub open spec fn escape_path(path: Seq<char>) -> Seq<char>
    decreases path.len(),
{
    if path.len() == 0 {
        Seq::empty()
    } else {
        escape_path(path.drop_last()) + escaped_char(path.last())
    }
}

/// Name of the patch record that belongs to a relative file path.
pub open spec fn patch_file_name(path: Seq<char>) -> Seq<char> {
    "patches/"@ + escape_path(path) + ".patch"@
}

/// Position of the last separator of the path, or -1 where it has none.
pub open spec fn last_separator(path: Seq<char>) -> int
    decreases path.len(),
{
    if path.len() == 0 {
        -1
    } else if path.last() == '/' {
        path.len() - 1
    } else {
        last_separator(path.drop_last())
    }
}

/// The last component of the path.
pub open spec fn file_name_of(path: Seq<char>) -> Seq<char> {
    path.skip(last_separator(path) + 1)
}

/// The path without its last component; empty where the path has one component.
pub open spec fn parent_of(path: Seq<char>) -> Seq<char> {
    if last_separator(path) < 0 {
        Seq::empty()
    } else {
        path.take(last_separator(path))
    }
}

/// The path as seen from `root`: what follows `root` and a separator.
/// An empty root leaves the path as it is; a path outside the root has none.
pub open spec fn relative_to(path: Seq<char>, root: Seq<char>) -> Option<Seq<char>> {
    if root.len() == 0 {
        Some(path)
    } else if path.len() > root.len() && path.take(root.len() as int) == root
        && path[root.len() as int] == '/' {
        Some(path.skip(root.len() as int + 1))
    } else {
        None
    }
}

/// `last_separator` finds a separator, and no separator follows it.
pub proof fn lemma_last_separator(path: Seq<char>)
    ensures
        -1 <= last_separator(path) < path.len(),
        last_separator(path) >= 0 ==> path[last_separator(path)] == '/',
        forall|j: int| last_separator(path) < j < path.len() ==> path[j] != '/',
    decreases path.len(),
{
    if path.len() > 0 && path.last() != '/' {
        let head = path.drop_last();
        lemma_last_separator(head);
        assert forall|j: int| last_separator(path) < j < path.len() implies path[j] != '/' by {
            if j < head.len() {
                assert(head[j] == path[j]);
            }
        }
    }
}

/// An escaped path begins with the escape of the path's first character.
proof fn lemma_escape_front(path: Seq<char>)
    requires
        path.len() > 0,
    ensures
        escape_path(path) == escaped_char(path[0]) + escape_path(path.drop_first()),
    decreases path.len(),
{
    if path.len() == 1 {
        assert(path.drop_last() == Seq::<char>::empty());
        assert(path.drop_first() == Seq::<char>::empty());
        assert(escape_path(path) =~= escaped_char(path[0]) + escape_path(path.drop_first()));
    } else {
        let inner = path.drop_last();
        lemma_escape_front(inner);
        assert(inner.drop_first() == path.drop_first().drop_last());
        assert(escape_path(path) =~= escaped_char(path[0]) + escape_path(path.drop_first()));
    }
}

/// The escape can be undone: two paths that escape to the same text are
/// the same path.
pub proof fn lemma_escape_is_reversible(a: Seq<char>, b: Seq<char>)
    requires
        escape_path(a) == escape_path(b),
    ensures
        a == b,
    decreases a.len(),
{
    if a.len() == 0 || b.len() == 0 {
        if a.len() > 0 {
            lemma_escape_front(a);
        }
        if b.len() > 0 {
            lemma_escape_front(b);
        }
        assert(a =~= b);
    } else {
        lemma_escape_front(a);
        lemma_escape_front(b);
        let x = escaped_char(a[0]);
        let y = escaped_char(b[0]);
        let rest_a = escape_path(a.drop_first());
        let rest_b = escape_path(b.drop_first());
        assert((x + rest_a)[0] == (y + rest_b)[0]);
        if x.len() == 2 {
            assert((x + rest_a)[1] == x[1]);
            if y.len() == 2 {
                assert((y + rest_b)[1] == y[1]);
            }
        }
        assert(a[0] == b[0]);
        assert(rest_a =~= (x + rest_a).skip(x.len() as int));
        assert(rest_b =~= (y + rest_b).skip(y.len() as int));
        lemma_escape_is_reversible(a.drop_first(), b.drop_first());
        assert(a =~= seq![a[0]] + a.drop_first());
        assert(b =~= seq![b[0]] + b.drop_first());
    }
}

/// Every path has a patch record name of its own: two different paths
/// never share a record.
pub proof fn lemma_patch_names_differ(a: Seq<char>, b: Seq<char>)
    requires
        a != b,
    ensures
        patch_file_name(a) != patch_file_name(b),
{
    let front = "patches/"@;
    let back = ".patch"@;
    let ea = escape_path(a);
    let eb = escape_path(b);
    if patch_file_name(a) == patch_file_name(b) {
        assert((front + ea + back).len() == (front + eb + back).len());
        assert(ea =~= (front + ea + back).subrange(
            front.len() as int,
            front.len() as int + ea.len() as int,
        ));
        assert(eb =~= (front + eb + back).subrange(
            front.len() as int,
            front.len() as int + eb.len() as int,
        ));
        lemma_escape_is_reversible(a, b);
    }
}

/// A path is its root, a separator, and the path as seen from the root;
/// so two different paths look different from the same root.
pub proof fn lemma_relative_paths_differ(a: Seq<char>, b: Seq<char>, root: Seq<char>)
    requires
        a != b,
        relative_to(a, root) is Some,
        relative_to(b, root) is Some,
    ensures
        relative_to(a, root) != relative_to(b, root),
{
    if root.len() > 0 && relative_to(a, root) == relative_to(b, root) {
        let n = root.len() as int;
        assert(a =~= a.take(n) + seq![a[n]] + a.skip(n + 1));
        assert(b =~= b.take(n) + seq![b[n]] + b.skip(n + 1));
    }
}

/// Computes the name under which the patch record of `crate_file_name` is
/// stored. No two paths get the same name.
pub fn crate_file_to_patch_file(crate_file_name: &str) -> (name: String)
    ensures
        name@ == patch_file_name(crate_file_name@),
{
    let mut out = String::from_str("patches/");
    let ghost prefix = out@;
    for c in it: crate_file_name.chars()
        invariant
            it.seq() == crate_file_name@,
            out@ == prefix + escape_path(crate_file_name@.take(it.index())),
    {
        proof {
            let next = crate_file_name@.take(it.index() + 1);
            assert(next.drop_last() == crate_file_name@.take(it.index()));
        }
        if c == '/' {
            push_char(&mut out, '-');
            push_char(&mut out, '-');
        } else if c == '-' {
            push_char(&mut out, '-');
            push_char(&mut out, '_');
        } else {
            push_char(&mut out, c);
        }
    }
    assert(crate_file_name@.take(crate_file_name@.len() as int) == crate_file_name@);
    out.append(".patch");
    out
}

/// Finds the last separator: `None` where the path has none.
fn find_last_separator(path: &str) -> (r: Option<usize>)
    ensures
        match r {
            Some(i) => i as int == last_separator(path@),
            None => last_separator(path@) == -1,
        },
{
    let len = path.unicode_len();
    let mut found: Option<usize> = None;
    let mut i: usize = 0;
    for c in it: path.chars()
        invariant
            it.seq() == path@,
            i as int == it.index(),
            len as nat == path@.len(),
            match found {
                Some(k) => k as int == last_separator(path@.take(it.index())),
                None => last_separator(path@.take(it.index())) == -1,
            },
    {
        proof {
            let next = path@.take(it.index() + 1);
            assert(next.drop_last() == path@.take(it.index()));
        }
        if c == '/' {
            found = Some(i);
        }
        i = i + 1;
    }
    assert(path@.take(path@.len() as int) == path@);
    found
}

/// The last component of `path`.
pub fn file_name(path: &str) -> (name: String)
    ensures
        name@ == file_name_of(path@),
{
    let len = path.unicode_len();
    proof {
        lemma_last_separator(path@);
    }
    match find_last_separator(path) {
        Some(i) => path.substring_char(i + 1, len).to_owned(),
        None => path.to_owned(),
    }
}

/// The directory that holds `path`: empty for a path of one component.
pub fn parent_dir(path: &str) -> (dir: String)
    ensures
        dir@ == parent_of(path@),
{
    proof {
        lemma_last_separator(path@);
    }
    match find_last_separator(path) {
        Some(i) => path.substring_char(0, i).to_owned(),
        None => String::new(),
    }
}

/// Strips `root` and the separator after it from the front of `path`.
pub fn strip_root(path: &str, root: &str) -> (r: Option<String>)
    ensures
        match r {
            Some(rest) => relative_to(path@, root@) == Some(rest@),
            None => relative_to(path@, root@) is None,
        },
{
    let len = path.unicode_len();
    let root_len = root.unicode_len();
    if root_len == 0 {
        return Some(path.to_owned());
    }
    if len <= root_len {
        return None;
    }
    let head = path.substring_char(0, root_len);
    if same_text(head, root) && path.get_char(root_len) == '/' {
        Some(path.substring_char(root_len + 1, len).to_owned())
    } else {
        None
    }
}

} // verus!
