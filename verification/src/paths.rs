//! Absolute paths as component lists: the dialog keeps its current
//! directory as the canonical components below the filesystem root.

use vstd::prelude::*;
use vstd::string::StringExecFns;
use crate::listing::entry_views;
use crate::order::{is_dir_entry, is_dir_entry_str};

verus! {

/// The absolute path named by components: `"/a/b"` for `[a, b]`, the
/// empty sequence for the root itself.
pub open spec fn dir_path(dir: Seq<Seq<char>>) -> Seq<char>
    decreases dir.len(),
{
    if dir.len() == 0 {
        Seq::empty()
    } else {
        dir_path(dir.drop_last()) + seq!['/'] + dir.last()
    }
}

/// An entry's name without the directory slash.
pub open spec fn strip_entry(e: Seq<char>) -> Seq<char> {
    if is_dir_entry(e) {
        e.drop_last()
    } else {
        e
    }
}

/// The absolute path of an entry inside a directory.
pub open spec fn entry_path(dir: Seq<Seq<char>>, e: Seq<char>) -> Seq<char> {
    dir_path(dir) + seq!['/'] + strip_entry(e)
}

/// One component popped; the root is its own parent.
pub open spec fn parent_components(dir: Seq<Seq<char>>) -> Seq<Seq<char>> {
    if dir.len() == 0 {
        dir
    } else {
        dir.drop_last()
    }
}

fn components_path(dir: &Vec<String>) -> (r: String)
    ensures
        r@ == dir_path(entry_views(dir@)),
{
    let mut s = String::new();
    proof {
        assert(entry_views(dir@).take(0) =~= Seq::<Seq<char>>::empty());
    }
    let mut i: usize = 0;
    while i < dir.len()
        invariant
            i <= dir@.len(),
            s@ == dir_path(entry_views(dir@).take(i as int)),
        decreases dir@.len() - i,
    {
        s.append("/");
        s.append(dir[i].as_str());
        proof {
            reveal_strlit("/");
            let dv = entry_views(dir@);
            assert(dv.take(i + 1).drop_last() =~= dv.take(i as int));
            assert(dv.take(i + 1).last() == dir@[i as int]@);
            assert("/"@ =~= seq!['/']);
        }
        i = i + 1;
    }
    proof {
        assert(entry_views(dir@).take(dir@.len() as int) =~= entry_views(dir@));
    }
    s
}

/// Renders the directory as an absolute path string; the root renders
/// as `"/"`.
pub fn dir_path_string(dir: &Vec<String>) -> (r: String)
    ensures
        dir@.len() == 0 ==> r@ == "/"@,
        dir@.len() > 0 ==> r@ == dir_path(entry_views(dir@)),
{
    if dir.len() == 0 {
        "/".to_owned()
    } else {
        components_path(dir)
    }
}

/// The entry's name with a directory's trailing slash removed.
pub fn strip_entry_string(e: &str) -> (r: String)
    ensures
        r@ == strip_entry(e@),
{
    if is_dir_entry_str(e) {
        let n = e.unicode_len();
        let t = e.substring_char(0, n - 1);
        proof {
            assert(e@.subrange(0, e@.len() - 1) =~= e@.drop_last());
        }
        t.to_owned()
    } else {
        e.to_owned()
    }
}

/// The absolute path string of an entry inside the directory.
pub fn entry_path_string(dir: &Vec<String>, e: &str) -> (r: String)
    ensures
        r@ == entry_path(entry_views(dir@), e@),
{
    let mut s = components_path(dir);
    s.append("/");
    let stripped = strip_entry_string(e);
    s.append(stripped.as_str());
    proof {
        reveal_strlit("/");
        assert("/"@ =~= seq!['/']);
    }
    s
}

/// A copy of the directory with its last component popped; the root is
/// returned unchanged.
pub fn parent_of(dir: &Vec<String>) -> (r: Vec<String>)
    ensures
        entry_views(r@) == parent_components(entry_views(dir@)),
{
    let stop: usize = if dir.len() == 0 {
        0
    } else {
        dir.len() - 1
    };
    let mut r: Vec<String> = Vec::new();
    let mut i: usize = 0;
    while i < stop
        invariant
            stop <= dir@.len(),
            i <= stop,
            r@.len() == i,
            forall|k: int| 0 <= k < i ==> (#[trigger] r@[k])@ == dir@[k]@,
        decreases stop - i,
    {
        r.push(dir[i].clone());
        i = i + 1;
    }
    proof {
        assert(entry_views(r@) =~= parent_components(entry_views(dir@)));
    }
    r
}

} // verus!
