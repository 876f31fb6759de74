//! Name filters: by file extension (ASCII case-insensitive) or by
//! substring (case-sensitive). Directories always pass a filter.

use vstd::prelude::*;

verus! {

/// A pattern that can be used to filter the displayed files.
pub enum FilePattern {
    /// Filter by file extension. This filter is case insensitive.
    Extension(String),
    /// Filter by substring. This filter is case sensitive.
    Substring(String),
}

/// The code point of a character with an ASCII capital folded to lower case.
pub open spec fn lower_code(c: char) -> int {
    if 'A' <= c && c <= 'Z' {
        c as u32 + 32
    } else {
        c as u32 as int
    }
}

/// Equality of two character sequences up to ASCII case.
pub open spec fn ascii_ieq(a: Seq<char>, b: Seq<char>) -> bool {
    a.len() == b.len() && forall|i: int| 0 <= i < a.len() ==> lower_code(a[i]) == lower_code(b[i])
}

/// The index of the last `'.'` in a name, not counting a leading dot;
/// `-1` when the name has no extension separator.
pub open spec fn last_dot(name: Seq<char>) -> int
    decreases name.len(),
{
    if name.len() <= 1 {
        -1
    } else if name[name.len() - 1] == '.' {
        name.len() - 1
    } else {
        last_dot(name.drop_last())
    }
}

pub proof fn lemma_last_dot_bounds(name: Seq<char>)
    ensures
        last_dot(name) == -1 || (1 <= last_dot(name) < name.len() && name[last_dot(name)]
            == '.'),
    decreases name.len(),
{
    if name.len() <= 1 {
    } else if name[name.len() - 1] == '.' {
    } else {
        lemma_last_dot_bounds(name.drop_last());
    }
}

/// The name has an extension and it equals the pattern up to ASCII case.
pub open spec fn ext_matches(name: Seq<char>, pat: Seq<char>) -> bool {
    last_dot(name) >= 1 && ascii_ieq(name.subrange(last_dot(name) + 1, name.len() as int), pat)
}

/// The pattern occurs contiguously in the name at offset `k`.
pub open spec fn match_at(name: Seq<char>, sub: Seq<char>, k: int) -> bool {
    0 <= k && k + sub.len() <= name.len() && name.subrange(k, k + sub.len()) == sub
}

/// The pattern occurs contiguously somewhere in the name.
pub open spec fn contains_sub(name: Seq<char>, sub: Seq<char>) -> bool {
    exists|k: int| match_at(name, sub, k)
}

/// What a filter accepts: every directory, and a file whose name fits
/// the pattern.
pub open spec fn spec_matches(p: FilePattern, name: Seq<char>, is_dir: bool) -> bool {
    is_dir || (match p {
        FilePattern::Extension(e) => ext_matches(name, e@),
        FilePattern::Substring(s) => contains_sub(name, s@),
    })
}

fn lower_code_of(c: char) -> (r: u32)
    ensures
        r == lower_code(c),
{
    if 'A' <= c && c <= 'Z' {
        c as u32 + 32
    } else {
        c as u32
    }
}

/// Finds the extension separator: returns `last_dot(name@) + 1`, so `0`
/// stands for a name without one.
fn find_last_dot(name: &str) -> (r: usize)
    ensures
        r == 0 ==> last_dot(name@) == -1,
        r >= 1 ==> 2 <= r <= name@.len() && last_dot(name@) == r - 1,
{
    let n = name.unicode_len();
    let mut i: usize = n;
    proof {
        assert(name@.take(n as int) =~= name@);
    }
    loop
        invariant
            i <= n,
            n == name@.len(),
            last_dot(name@) == last_dot(name@.take(i as int)),
        decreases i,
    {
        if i <= 1 {
            return 0;
        }
        if name.get_char(i - 1) == '.' {
            proof {
                assert(name@.take(i as int).len() == i);
                assert(name@.take(i as int)[i - 1] == name@[i - 1]);
            }
            return i;
        }
        proof {
            assert(name@.take(i as int).drop_last() =~= name@.take(i as int - 1));
        }
        i = i - 1;
    }
}

fn ext_matches_str(name: &str, pat: &str) -> (r: bool)
    ensures
        r == ext_matches(name@, pat@),
{
    let n = name.unicode_len();
    let r = find_last_dot(name);
    if r == 0 {
        return false;
    }
    let plen = pat.unicode_len();
    if n - r != plen {
        return false;
    }
    let mut j: usize = 0;
    while j < plen
        invariant
            j <= plen,
            plen == pat@.len(),
            n == name@.len(),
            2 <= r <= n,
            last_dot(name@) == r - 1,
            n - r == plen,
            forall|k: int| 0 <= k < j ==> lower_code(name@[r + k]) == lower_code(pat@[k]),
        decreases plen - j,
    {
        if lower_code_of(name.get_char(r + j)) != lower_code_of(pat.get_char(j)) {
            proof {
                let ext = name@.subrange(r as int, n as int);
                assert(ext[j as int] == name@[r + j]);
            }
            return false;
        }
        j = j + 1;
    }
    proof {
        let ext = name@.subrange(r as int, n as int);
        assert(forall|k: int| 0 <= k < ext.len() ==> ext[k] == name@[r + k]);
        assert(ascii_ieq(ext, pat@));
    }
    true
}

fn match_at_str(name: &str, sub: &str, k: usize) -> (r: bool)
    requires
        k + sub@.len() <= name@.len(),
    ensures
        r == match_at(name@, sub@, k as int),
{
    let n = name.unicode_len();
    let m = sub.unicode_len();
    let mut j: usize = 0;
    while j < m
        invariant
            j <= m,
            m == sub@.len(),
            n == name@.len(),
            k + m <= n,
            forall|jj: int| 0 <= jj < j ==> name@[k + jj] == sub@[jj],
        decreases m - j,
    {
        if name.get_char(k + j) != sub.get_char(j) {
            proof {
                let piece = name@.subrange(k as int, k + m);
                assert(piece[j as int] == name@[k + j]);
            }
            return false;
        }
        j = j + 1;
    }
    proof {
        assert(name@.subrange(k as int, k + m) =~= sub@);
    }
    true
}

fn contains_str(name: &str, sub: &str) -> (r: bool)
    ensures
        r == contains_sub(name@, sub@),
{
    let n = name.unicode_len();
    let m = sub.unicode_len();
    if m > n {
        return false;
    }
    if m == 0 {
        proof {
            assert(name@.subrange(0, 0) =~= sub@);
            assert(match_at(name@, sub@, 0));
        }
        return true;
    }
    let mut k: usize = 0;
    while k <= n - m
        invariant
            1 <= m <= n,
            n == name@.len(),
            m == sub@.len(),
            k <= n - m + 1,
            forall|kk: int| 0 <= kk < k ==> !match_at(name@, sub@, kk),
        decreases n - m + 1 - k,
    {
        if match_at_str(name, sub, k) {
            return true;
        }
        k = k + 1;
    }
    false
}

impl FilePattern {
    /// Whether a child with this name passes the filter; a directory
    /// always does.
    pub fn matches(&self, name: &str, is_dir: bool) -> (r: bool)
        ensures
            r == spec_matches(*self, name@, is_dir),
    {
        if is_dir {
            return true;
        }
        match self {
            FilePattern::Extension(e) => ext_matches_str(name, e.as_str()),
            FilePattern::Substring(s) => contains_str(name, s.as_str()),
        }
    }
}

} // verus!
