//! The listing order: the parent pseudo-entry first, then directories,
//! then files, each group ascending by code point.

use vstd::prelude::*;

verus! {

/// The pseudo-entry that stands for the parent directory.
pub open spec fn dotdot() -> Seq<char> {
    ".."@
}

/// An entry that names a directory: it carries a trailing slash.
pub open spec fn is_dir_entry(e: Seq<char>) -> bool {
    e.len() > 0 && e[e.len() - 1] == '/'
}

/// Lexicographic order on character sequences, by code point, with a
/// prefix ordered before its extensions.
pub open spec fn lex_le(a: Seq<char>, b: Seq<char>) -> bool
    decreases a.len(),
{
    if a.len() == 0 {
        true
    } else if b.len() == 0 {
        false
    } else if a[0] == b[0] {
        lex_le(a.drop_first(), b.drop_first())
    } else {
        a[0] < b[0]
    }
}

/// The full listing order: `".."` first, then directory entries, then
/// file entries, lexicographic within each group.
pub open spec fn entry_le(a: Seq<char>, b: Seq<char>) -> bool {
    if a == dotdot() {
        true
    } else if b == dotdot() {
        false
    } else if is_dir_entry(a) != is_dir_entry(b) {
        is_dir_entry(a)
    } else {
        lex_le(a, b)
    }
}

pub proof fn lemma_lex_le_total(a: Seq<char>, b: Seq<char>)
    ensures
        lex_le(a, b) || lex_le(b, a),
    decreases a.len(),
{
    if a.len() == 0 || b.len() == 0 {
    } else if a[0] == b[0] {
        lemma_lex_le_total(a.drop_first(), b.drop_first());
    }
}

pub proof fn lemma_lex_le_trans(a: Seq<char>, b: Seq<char>, c: Seq<char>)
    requires
        lex_le(a, b),
        lex_le(b, c),
    ensures
        lex_le(a, c),
    decreases a.len(),
{
    if a.len() == 0 {
    } else if b.len() == 0 {
    } else if c.len() == 0 {
    } else if a[0] == b[0] && b[0] == c[0] {
        lemma_lex_le_trans(a.drop_first(), b.drop_first(), c.drop_first());
    }
}

pub proof fn lemma_entry_le_total(a: Seq<char>, b: Seq<char>)
    ensures
        entry_le(a, b) || entry_le(b, a),
{
    lemma_lex_le_total(a, b);
}

pub proof fn lemma_entry_le_trans(a: Seq<char>, b: Seq<char>, c: Seq<char>)
    requires
        entry_le(a, b),
        entry_le(b, c),
    ensures
        entry_le(a, c),
{
    if a != dotdot() && b != dotdot() && c != dotdot() {
        if is_dir_entry(a) == is_dir_entry(b) && is_dir_entry(b) == is_dir_entry(c) {
            lemma_lex_le_trans(a, b, c);
        }
    }
}

/// Whether the string is exactly the parent pseudo-entry `".."`.
pub fn is_dotdot_str(s: &str) -> (r: bool)
    ensures
        r == (s@ == dotdot()),
{
    proof {
        reveal_strlit("..");
    }
    let n = s.unicode_len();
    if n != 2 {
        return false;
    }
    let r = s.get_char(0) == '.' && s.get_char(1) == '.';
    proof {
        if r {
            assert(s@ =~= dotdot());
        }
    }
    r
}

/// Whether the entry names a directory, by its trailing slash.
pub fn is_dir_entry_str(s: &str) -> (r: bool)
    ensures
        r == is_dir_entry(s@),
{
    let n = s.unicode_len();
    if n == 0 {
        false
    } else {
        s.get_char(n - 1) == '/'
    }
}

/// Compares two strings in lexicographic code-point order.
pub fn lex_le_str(a: &str, b: &str) -> (r: bool)
    ensures
        r == lex_le(a@, b@),
{
    let alen = a.unicode_len();
    let blen = b.unicode_len();
    let mut i: usize = 0;
    proof {
        assert(a@.skip(0) =~= a@);
        assert(b@.skip(0) =~= b@);
    }
    loop
        invariant
            i <= alen,
            i <= blen,
            alen == a@.len(),
            blen == b@.len(),
            lex_le(a@, b@) == lex_le(a@.skip(i as int), b@.skip(i as int)),
        decreases alen - i,
    {
        if i == alen {
            return true;
        }
        if i == blen {
            return false;
        }
        let ca = a.get_char(i);
        let cb = b.get_char(i);
        if ca == cb {
            proof {
                assert(a@.skip(i as int).drop_first() =~= a@.skip(i as int + 1));
                assert(b@.skip(i as int).drop_first() =~= b@.skip(i as int + 1));
            }
            i = i + 1;
        } else {
            return ca < cb;
        }
    }
}

/// Compares two entries in the listing order.
pub fn entry_le_str(a: &str, b: &str) -> (r: bool)
    ensures
        r == entry_le(a@, b@),
{
    if is_dotdot_str(a) {
        true
    } else if is_dotdot_str(b) {
        false
    } else {
        let da = is_dir_entry_str(a);
        let db = is_dir_entry_str(b);
        if da != db {
            da
        } else {
            lex_le_str(a, b)
        }
    }
}

} // verus!
