//! Building a listing from one directory's raw entries: hidden-name and
//! pattern filtering, the trailing slash on directories, the synthetic
//! `".."` row, and the listing order.

use vstd::prelude::*;
use vstd::multiset::Multiset;
use vstd::seq_lib::lemma_multiset_commutative;
use crate::order::{dotdot, entry_le, is_dir_entry, lex_le, entry_le_str, lemma_entry_le_total,
    lemma_entry_le_trans};
use crate::pattern::{FilePattern, spec_matches};
use vstd::string::StringExecFns;

verus! {

broadcast use vstd::multiset::group_multiset_axioms;

/// One direct child of a directory, as the host's scanner reports it.
pub struct RawEntry {
    pub name: String,
    pub is_dir: bool,
}

/// The views of a sequence of owned strings.
pub open spec fn entry_views(s: Seq<String>) -> Seq<Seq<char>> {
    Seq::new(s.len(), |i: int| s[i]@)
}

/// A name whose first character is a dot is hidden.
pub open spec fn is_hidden(name: Seq<char>) -> bool {
    name.len() > 0 && name[0] == '.'
}

/// Whether a scanned child stays in the listing: a hidden name needs
/// `show_hidden`, a directory always passes the filter, and a file must
/// fit the filter when one is set.
pub open spec fn keeps(
    name: Seq<char>,
    is_dir: bool,
    filter: Option<FilePattern>,
    show_hidden: bool,
) -> bool {
    &&& is_hidden(name) ==> show_hidden
    &&& match filter {
        Some(p) => spec_matches(p, name, is_dir),
        None => true,
    }
}

/// The display form of a child: directories gain a trailing slash.
pub open spec fn decorate(name: Seq<char>, is_dir: bool) -> Seq<char> {
    if is_dir {
        name.push('/')
    } else {
        name
    }
}

/// The display forms of all children that stay in the listing.
pub open spec fn kept_multiset(
    raw: Seq<RawEntry>,
    filter: Option<FilePattern>,
    show_hidden: bool,
) -> Multiset<Seq<char>>
    decreases raw.len(),
{
    if raw.len() == 0 {
        Multiset::empty()
    } else {
        let rest = kept_multiset(raw.drop_last(), filter, show_hidden);
        let e = raw.last();
        if keeps(e.name@, e.is_dir, filter, show_hidden) {
            rest.insert(decorate(e.name@, e.is_dir))
        } else {
            rest
        }
    }
}

/// A name a directory scan can actually report: never the reserved
/// `".."`, and never one holding a path separator.
pub open spec fn raw_name_ok(name: Seq<char>) -> bool {
    &&& name != dotdot()
    &&& forall|j: int| 0 <= j < name.len() ==> name[j] != '/'
}

/// Every scanned child has a reportable name.
pub open spec fn raw_ok(raw: Seq<RawEntry>) -> bool {
    forall|i: int| 0 <= i < raw.len() ==> raw_name_ok((#[trigger] raw[i].name)@)
}

/// Ascending in the listing order.
pub open spec fn sorted_entries(items: Seq<Seq<char>>) -> bool {
    forall|i: int, j: int| 0 <= i < j < items.len() ==> entry_le(items[i], items[j])
}

/// What `scan` produces from one directory's children: the `".."` row
/// first, then exactly the kept children in display form, sorted.
pub open spec fn is_listing_of(
    items: Seq<Seq<char>>,
    raw: Seq<RawEntry>,
    filter: Option<FilePattern>,
    show_hidden: bool,
) -> bool {
    &&& items.len() >= 1
    &&& items[0] == dotdot()
    &&& items.drop_first().to_multiset() == kept_multiset(raw, filter, show_hidden)
    &&& sorted_entries(items)
}

/// Inserting into a sequence inserts into its multiset.
proof fn lemma_insert_to_multiset<A>(s: Seq<A>, i: int, a: A)
    requires
        0 <= i <= s.len(),
    ensures
        s.insert(i, a).to_multiset() =~= s.to_multiset().insert(a),
{
    let left = s.take(i);
    let right = s.skip(i);
    assert(s.insert(i, a) =~= left.push(a) + right);
    assert(s =~= left + right);
    lemma_multiset_commutative(left.push(a), right);
    lemma_multiset_commutative(left, right);
    left.to_multiset_ensures();
}

fn insert_pos(v: &Vec<String>, x: &str) -> (p: usize)
    ensures
        p <= v@.len(),
        forall|k: int| 0 <= k < p ==> entry_le(#[trigger] v@[k]@, x@),
        p < v@.len() ==> !entry_le(v@[p as int]@, x@),
{
    let mut p: usize = 0;
    while p < v.len()
        invariant
            p <= v@.len(),
            forall|k: int| 0 <= k < p ==> entry_le(#[trigger] v@[k]@, x@),
        decreases v@.len() - p,
    {
        if !entry_le_str(v[p].as_str(), x) {
            return p;
        }
        p = p + 1;
    }
    p
}

/// Inserts an entry into a sorted group, keeping it sorted.
fn insert_sorted(v: &mut Vec<String>, x: String)
    requires
        sorted_entries(entry_views(old(v)@)),
    ensures
        final(v)@.len() == old(v)@.len() + 1,
        sorted_entries(entry_views(final(v)@)),
        entry_views(final(v)@).to_multiset() == entry_views(old(v)@).to_multiset().insert(x@),
        forall|k: int|
            0 <= k < final(v)@.len() ==> ((#[trigger] final(v)@[k])@ == x@ || exists|k0: int|
                0 <= k0 < old(v)@.len() && final(v)@[k]@ == (#[trigger] old(v)@[k0])@),
{
    let ghost old_views = entry_views(v@);
    let p = insert_pos(v, x.as_str());
    proof {
        if p < v@.len() {
            lemma_entry_le_total(v@[p as int]@, x@);
        }
        assert forall|k: int| p <= k < v@.len() implies entry_le(
            x@,
            #[trigger] v@[k]@,
        ) by {
            if k > p {
                assert(entry_views(v@)[p as int] == v@[p as int]@);
                assert(entry_views(v@)[k] == v@[k]@);
                assert(entry_le(entry_views(v@)[p as int], entry_views(v@)[k]));
                lemma_entry_le_trans(x@, v@[p as int]@, v@[k]@);
            }
        }
    }
    v.insert(p, x);
    proof {
        assert(entry_views(v@) =~= old_views.insert(p as int, x@));
        lemma_insert_to_multiset(old_views, p as int, x@);
        assert forall|i: int, j: int|
            0 <= i < j < entry_views(v@).len() implies entry_le(
            entry_views(v@)[i],
            entry_views(v@)[j],
        ) by {}
        assert forall|k: int| 0 <= k < v@.len() implies ((#[trigger] v@[k])@ == x@ || exists|
            k0: int,
        | 0 <= k0 < old_views.len() && v@[k]@ == old_views[k0]) by {
            if k < p {
                assert(v@[k]@ == old_views[k]);
            } else if k > p {
                assert(v@[k]@ == old_views[k - 1]);
            }
        }
    }
}

fn starts_with_dot(s: &str) -> (r: bool)
    ensures
        r == is_hidden(s@),
{
    let n = s.unicode_len();
    if n == 0 {
        false
    } else {
        s.get_char(0) == '.'
    }
}

fn keeps_entry(e: &RawEntry, filter: &Option<FilePattern>, show_hidden: bool) -> (r: bool)
    ensures
        r == keeps(e.name@, e.is_dir, *filter, show_hidden),
{
    if starts_with_dot(e.name.as_str()) && !show_hidden {
        return false;
    }
    match filter {
        Some(p) => p.matches(e.name.as_str(), e.is_dir),
        None => true,
    }
}

fn decorate_entry(name: &String, is_dir: bool) -> (r: String)
    ensures
        r@ == decorate(name@, is_dir),
{
    let mut t = name.clone();
    if is_dir {
        t.append("/");
        proof {
            reveal_strlit("/");
            assert(name@ + "/"@ =~= name@.push('/'));
        }
    }
    t
}

/// Builds the listing for one directory from its scanned children: the
/// kept children in display form, sorted, behind the `".."` row.
pub fn build_listing(raw: &Vec<RawEntry>, filter: &Option<FilePattern>, show_hidden: bool) -> (items:
    Vec<String>)
    requires
        raw_ok(raw@),
    ensures
        is_listing_of(entry_views(items@), raw@, *filter, show_hidden),
{
    let mut dirs: Vec<String> = Vec::new();
    let mut files: Vec<String> = Vec::new();
    proof {
        assert(raw@.take(0) =~= Seq::<RawEntry>::empty());
        let ed = entry_views(dirs@);
        let ef = entry_views(files@);
        ed.to_multiset_ensures();
        ef.to_multiset_ensures();
        assert(ed.to_multiset().add(ef.to_multiset()) =~= kept_multiset(
            raw@.take(0),
            *filter,
            show_hidden,
        ));
    }
    let mut idx: usize = 0;
    while idx < raw.len()
        invariant
            idx <= raw@.len(),
            raw_ok(raw@),
            sorted_entries(entry_views(dirs@)),
            sorted_entries(entry_views(files@)),
            forall|k: int|
                0 <= k < dirs@.len() ==> is_dir_entry((#[trigger] dirs@[k])@) && dirs@[k]@
                    != dotdot(),
            forall|k: int|
                0 <= k < files@.len() ==> !is_dir_entry((#[trigger] files@[k])@) && files@[k]@
                    != dotdot(),
            entry_views(dirs@).to_multiset().add(entry_views(files@).to_multiset())
                == kept_multiset(raw@.take(idx as int), *filter, show_hidden),
        decreases raw@.len() - idx,
    {
        let ghost pre_d = entry_views(dirs@).to_multiset();
        let ghost pre_f = entry_views(files@).to_multiset();
        proof {
            assert(raw@.take(idx + 1).drop_last() =~= raw@.take(idx as int));
            assert(raw@.take(idx + 1).last() == raw@[idx as int]);
        }
        let e = &raw[idx];
        if keeps_entry(e, filter, show_hidden) {
            let d = decorate_entry(&e.name, e.is_dir);
            proof {
                reveal_strlit("..");
                assert(raw_name_ok(raw@[idx as int].name@));
                if e.is_dir {
                    assert(d@.len() > 0 && d@[d@.len() - 1] == '/');
                    assert(d@ != dotdot());
                } else {
                    assert(d@ == e.name@);
                    if d@.len() > 0 {
                        assert(d@[d@.len() - 1] != '/');
                    }
                }
            }
            if e.is_dir {
                insert_sorted(&mut dirs, d);
                proof {
                    assert(entry_views(dirs@).to_multiset().add(pre_f) =~= pre_d.add(
                        pre_f,
                    ).insert(d@));
                }
            } else {
                insert_sorted(&mut files, d);
                proof {
                    assert(pre_d.add(entry_views(files@).to_multiset()) =~= pre_d.add(
                        pre_f,
                    ).insert(d@));
                }
            }
        }
        idx = idx + 1;
    }
    proof {
        assert(raw@.take(raw@.len() as int) =~= raw@);
    }
    let ghost dirs_snap = dirs@;
    let ghost files_snap = files@;
    let mut items: Vec<String> = Vec::new();
    items.push("..".to_owned());
    items.append(&mut dirs);
    items.append(&mut files);
    proof {
        let iv = entry_views(items@);
        assert(iv[0] == dotdot());
        assert(iv.drop_first() =~= entry_views(dirs_snap) + entry_views(files_snap));
        lemma_multiset_commutative(entry_views(dirs_snap), entry_views(files_snap));
        let dn = dirs_snap.len() as int;
        assert forall|i: int, j: int| 0 <= i < j < iv.len() implies entry_le(iv[i], iv[j]) by {
            if i == 0 {
            } else if j <= dn {
                assert(iv[i] == entry_views(dirs_snap)[i - 1]);
                assert(iv[j] == entry_views(dirs_snap)[j - 1]);
                assert(entry_le(entry_views(dirs_snap)[i - 1], entry_views(dirs_snap)[j - 1]));
            } else if i > dn {
                assert(iv[i] == entry_views(files_snap)[i - 1 - dn]);
                assert(iv[j] == entry_views(files_snap)[j - 1 - dn]);
                assert(entry_le(entry_views(files_snap)[i - 1 - dn], entry_views(files_snap)[j - 1
                    - dn]));
            } else {
                assert(iv[i] == entry_views(dirs_snap)[i - 1]);
                assert(iv[j] == entry_views(files_snap)[j - 1 - dn]);
                assert(is_dir_entry(iv[i]) && !is_dir_entry(iv[j]));
            }
        }
    }
    items
}

/// Every display form in the kept collection stems from one kept child.
proof fn lemma_kept_origin(
    raw: Seq<RawEntry>,
    filter: Option<FilePattern>,
    show_hidden: bool,
    x: Seq<char>,
)
    requires
        kept_multiset(raw, filter, show_hidden).contains(x),
    ensures
        exists|i: int|
            0 <= i < raw.len() && keeps((#[trigger] raw[i]).name@, raw[i].is_dir, filter,
            show_hidden) && x == decorate(raw[i].name@, raw[i].is_dir),
    decreases raw.len(),
{
    if raw.len() == 0 {
        assert(Multiset::<Seq<char>>::empty().count(x) == 0);
    } else {
        let e = raw.last();
        let n = raw.len() - 1;
        if keeps(e.name@, e.is_dir, filter, show_hidden) && x == decorate(e.name@, e.is_dir) {
            assert(raw[n] == e);
        } else {
            lemma_kept_origin(raw.drop_last(), filter, show_hidden, x);
            let i = choose|i: int|
                0 <= i < raw.drop_last().len() && keeps(
                    (#[trigger] raw.drop_last()[i]).name@,
                    raw.drop_last()[i].is_dir,
                    filter,
                    show_hidden,
                ) && x == decorate(raw.drop_last()[i].name@, raw.drop_last()[i].is_dir);
            assert(raw[i] == raw.drop_last()[i]);
        }
    }
}

/// A listing scanned with hidden names off shows none: no row but the
/// `".."` one starts with a dot.
pub proof fn lemma_no_hidden_rows(
    items: Seq<Seq<char>>,
    raw: Seq<RawEntry>,
    filter: Option<FilePattern>,
)
    requires
        is_listing_of(items, raw, filter, false),
    ensures
        forall|i: int| 1 <= i < items.len() && items[i].len() > 0 ==> items[i][0] != '.',
{
    let m = items.drop_first();
    m.to_multiset_ensures();
    assert forall|i: int| 1 <= i < items.len() && items[i].len() > 0 implies items[i][0]
        != '.' by {
        assert(m[i - 1] == items[i]);
        assert(m.contains(items[i]));
        lemma_kept_origin(raw, filter, false, items[i]);
    }
}

/// The first row of any listing is the parent pseudo-entry `".."`.
pub proof fn lemma_first_row_is_parent(
    items: Seq<Seq<char>>,
    raw: Seq<RawEntry>,
    filter: Option<FilePattern>,
    show_hidden: bool,
)
    requires
        is_listing_of(items, raw, filter, show_hidden),
    ensures
        items[0] == dotdot(),
{
}

/// Below the `".."` row, directories stand before files and each group
/// ascends lexicographically.
pub proof fn lemma_listing_grouped(
    items: Seq<Seq<char>>,
    raw: Seq<RawEntry>,
    filter: Option<FilePattern>,
    show_hidden: bool,
)
    requires
        is_listing_of(items, raw, filter, show_hidden),
        raw_ok(raw),
    ensures
        forall|i: int, j: int|
            1 <= i < j < items.len() && is_dir_entry(items[j]) ==> is_dir_entry(items[i]),
        forall|i: int, j: int|
            1 <= i < j < items.len() && is_dir_entry(items[i]) == is_dir_entry(items[j])
                ==> lex_le(items[i], items[j]),
{
    let m = items.drop_first();
    m.to_multiset_ensures();
    assert forall|i: int| 1 <= i < items.len() implies items[i] != dotdot() by {
        assert(m[i - 1] == items[i]);
        assert(m.contains(items[i]));
        lemma_kept_origin(raw, filter, show_hidden, items[i]);
        let k = choose|k: int|
            0 <= k < raw.len() && keeps((#[trigger] raw[k]).name@, raw[k].is_dir, filter,
            show_hidden) && items[i] == decorate(raw[k].name@, raw[k].is_dir);
        reveal_strlit("..");
        assert(raw_name_ok(raw[k].name@));
        if raw[k].is_dir {
            assert(items[i][items[i].len() - 1] == '/');
        }
    }
    assert forall|i: int, j: int|
        1 <= i < j < items.len() && is_dir_entry(items[j]) implies is_dir_entry(items[i]) by {
        assert(entry_le(items[i], items[j]));
    }
    assert forall|i: int, j: int|
        1 <= i < j < items.len() && is_dir_entry(items[i]) == is_dir_entry(
        items[j],
    ) implies lex_le(items[i], items[j]) by {
        assert(entry_le(items[i], items[j]));
    }
}

} // verus!
