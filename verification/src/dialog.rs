//! The dialog state machine: current directory, listing, cursor,
//! selection and the open/closed status, with every transition's effect
//! pinned down.
//!
//! Directory scans are the host's: an operation that needs one either
//! takes the scanned children as an argument, or reports which
//! directory to scan and leaves the state untouched. A failed scan is
//! committed by never calling the committing operation, so the last
//! good state survives.

use vstd::prelude::*;
use crate::listing::{RawEntry, build_listing, entry_views, is_listing_of, raw_ok};
use crate::order::{dotdot, is_dir_entry, is_dir_entry_str, is_dotdot_str};
use crate::paths::{entry_path, entry_path_string, parent_components, parent_of, strip_entry,
    strip_entry_string};
use crate::pattern::FilePattern;

verus! {

/// The file dialog: the popup's full state.
///
/// The current directory is kept as the canonical absolute path's
/// component list; `selected` marks the chosen rows and always runs
/// parallel to `items`.
pub struct FileDialog {
    pub width: u16,
    pub height: u16,
    pub filter: Option<FilePattern>,
    pub open: bool,
    pub current_dir: Vec<String>,
    pub show_hidden: bool,
    pub default_bindings: bool,
    pub multi_selection: bool,
    pub cursor: Option<usize>,
    pub items: Vec<String>,
    pub selected: Vec<bool>,
}

/// What `select` did: the cursor only moved, a file was picked, or a
/// directory must be scanned before the dialog can move into it.
pub enum SelectOutcome {
    Moved,
    Picked,
    NeedsScan(Vec<String>),
}

/// The cursor position after a listing reset moves forward: past the
/// `".."` row whenever a second row exists.
pub open spec fn fresh_cursor(len: int) -> int {
    if len > 1 {
        1
    } else {
        0
    }
}

/// The selection with membership of row `i` flipped.
pub open spec fn toggled(sel: Seq<bool>, i: int) -> Seq<bool> {
    sel.update(i, !sel[i])
}

/// The configuration and listing fields that cursor and selection
/// bookkeeping leave alone.
pub open spec fn same_listing(pre: FileDialog, post: FileDialog) -> bool {
    &&& post.width == pre.width
    &&& post.height == pre.height
    &&& post.filter == pre.filter
    &&& post.current_dir == pre.current_dir
    &&& post.show_hidden == pre.show_hidden
    &&& post.default_bindings == pre.default_bindings
    &&& post.multi_selection == pre.multi_selection
    &&& post.items == pre.items
}

/// A forward cursor move and nothing else.
pub open spec fn moved_next(pre: FileDialog, post: FileDialog) -> bool {
    &&& same_listing(pre, post)
    &&& post.open == pre.open
    &&& post.selected == pre.selected
    &&& post.cursor == Some(pre.spec_next_cursor() as usize)
}

/// A backward cursor move and nothing else.
pub open spec fn moved_prev(pre: FileDialog, post: FileDialog) -> bool {
    &&& same_listing(pre, post)
    &&& post.open == pre.open
    &&& post.selected == pre.selected
    &&& post.cursor == Some(pre.spec_prev_cursor() as usize)
}

/// Row `i`'s membership flipped and nothing else but the open flag.
pub open spec fn toggled_at(pre: FileDialog, post: FileDialog, i: int) -> bool {
    &&& same_listing(pre, post)
    &&& post.cursor == pre.cursor
    &&& post.selected@ == toggled(pre.selected@, i)
}

/// The state after a successful rescan is committed: the directory,
/// filter and hidden flag in place, the listing rebuilt from the scan,
/// the selection cleared and the cursor moved past `".."`.
pub open spec fn scan_committed(
    pre: FileDialog,
    post: FileDialog,
    dirv: Seq<Seq<char>>,
    filter: Option<FilePattern>,
    show_hidden: bool,
    raw: Seq<RawEntry>,
) -> bool {
    &&& entry_views(post.current_dir@) == dirv
    &&& post.filter == filter
    &&& post.show_hidden == show_hidden
    &&& is_listing_of(entry_views(post.items@), raw, filter, show_hidden)
    &&& post.cursor == Some(fresh_cursor(post.items@.len() as int) as usize)
    &&& post.selected@.len() == post.items@.len()
    &&& forall|k: int| 0 <= k < post.selected@.len() ==> !post.selected@[k]
    &&& post.open == pre.open
    &&& post.width == pre.width
    &&& post.height == pre.height
    &&& post.default_bindings == pre.default_bindings
    &&& post.multi_selection == pre.multi_selection
}

/// Row `i` names a file: not the parent pseudo-entry, no trailing slash.
pub open spec fn is_file_row(d: FileDialog, i: int) -> bool {
    &&& entry_views(d.items@)[i] != dotdot()
    &&& !is_dir_entry(entry_views(d.items@)[i])
}

/// The directory `select` must scan for row `i`: the parent for the
/// `".."` row, the named subdirectory otherwise.
pub open spec fn nav_target(d: FileDialog, i: int) -> Seq<Seq<char>> {
    let e = entry_views(d.items@)[i];
    if e == dotdot() {
        parent_components(entry_views(d.current_dir@))
    } else {
        entry_views(d.current_dir@).push(strip_entry(e))
    }
}

/// The absolute paths of the selected rows below `n`, in row order.
pub open spec fn paths_upto(d: FileDialog, n: int) -> Seq<Seq<char>>
    decreases n,
{
    if n <= 0 {
        Seq::empty()
    } else if d.selected@[n - 1] {
        paths_upto(d, n - 1).push(
            entry_path(entry_views(d.current_dir@), entry_views(d.items@)[n - 1]),
        )
    } else {
        paths_upto(d, n - 1)
    }
}

fn falses(n: usize) -> (v: Vec<bool>)
    ensures
        v@.len() == n,
        forall|k: int| 0 <= k < n ==> !v@[k],
{
    let mut v: Vec<bool> = Vec::new();
    let mut i: usize = 0;
    while i < n
        invariant
            i <= n,
            v@.len() == i,
            forall|k: int| 0 <= k < i ==> !v@[k],
        decreases n - i,
    {
        v.push(false);
        i = i + 1;
    }
    v
}

impl FileDialog {
    /// The dialog's structural invariant: clamped percentages, a
    /// listing that always holds the `".."` row, a cursor on a row, and
    /// a selection running parallel to the listing.
    pub open spec fn wf(self) -> bool {
        &&& self.width <= 100
        &&& self.height <= 100
        &&& self.items@.len() >= 1
        &&& entry_views(self.items@)[0] == dotdot()
        &&& (self.cursor matches Some(i) ==> (i as int) < self.items@.len())
        &&& self.selected@.len() == self.items@.len()
    }

    /// The cursor after a forward move: one row down, clamped to the
    /// last row; a fresh cursor skips past `".."` when it can.
    pub open spec fn spec_next_cursor(self) -> int {
        let len = self.items@.len() as int;
        match self.cursor {
            Some(i) => if i + 1 < len {
                i + 1
            } else {
                len - 1
            },
            None => fresh_cursor(len),
        }
    }

    /// The cursor after a backward move: one row up, clamped to the
    /// first row; a fresh cursor lands on `".."`.
    pub open spec fn spec_prev_cursor(self) -> int {
        match self.cursor {
            Some(i) => if i > 0 {
                i - 1
            } else {
                0
            },
            None => 0,
        }
    }

    /// Runtime test of `wf`, for a host that must guard the library's
    /// preconditions before calling in.
    pub fn wf_check(&self) -> (r: bool)
        ensures
            r == self.wf(),
    {
        let len = self.items.len();
        if !(self.width <= 100 && self.height <= 100 && len >= 1) {
            return false;
        }
        if !is_dotdot_str(self.items[0].as_str()) {
            return false;
        }
        let cursor_ok = match self.cursor {
            Some(i) => i < len,
            None => true,
        };
        cursor_ok && self.selected.len() == len
    }

    /// Creates the dialog, closed, over an already scanned starting
    /// directory; width and height are clamped to 100 percent.
    pub fn new(width: u16, height: u16, dir: Vec<String>, raw: Vec<RawEntry>) -> (d: FileDialog)
        requires
            raw_ok(raw@),
        ensures
            d.wf(),
            d.width == (if width <= 100 { width } else { 100u16 }),
            d.height == (if height <= 100 { height } else { 100u16 }),
            d.filter is None,
            !d.open,
            !d.show_hidden,
            !d.default_bindings,
            !d.multi_selection,
            d.current_dir == dir,
            is_listing_of(entry_views(d.items@), raw@, None::<FilePattern>, false),
            d.cursor == Some(fresh_cursor(d.items@.len() as int) as usize),
            forall|k: int| 0 <= k < d.selected@.len() ==> !d.selected@[k],
    {
        let no_filter: Option<FilePattern> = None;
        let items = build_listing(&raw, &no_filter, false);
        let len = items.len();
        FileDialog {
            width: if width <= 100 { width } else { 100 },
            height: if height <= 100 { height } else { 100 },
            filter: None,
            open: false,
            current_dir: dir,
            show_hidden: false,
            default_bindings: false,
            multi_selection: false,
            cursor: if len > 1 { Some(1) } else { Some(0) },
            items,
            selected: falses(len),
        }
    }

    /// Whether the default key-binding hints are rendered.
    pub fn default_bindings(&mut self, used: bool)
        ensures
            *final(self) == (FileDialog { default_bindings: used, ..*old(self) }),
    {
        self.default_bindings = used;
    }

    /// Whether multi selection should be enabled.
    pub fn set_multi_selection(&mut self, enable: bool)
        ensures
            *final(self) == (FileDialog { multi_selection: enable, ..*old(self) }),
    {
        self.multi_selection = enable;
    }

    /// Returns true when multi selection is enabled.
    pub fn multi_selection(&self) -> (r: bool)
        ensures
            r == self.multi_selection,
    {
        self.multi_selection
    }

    /// Returns whether the file dialog is currently open.
    pub fn is_open(&self) -> (r: bool)
        ensures
            r == self.open,
    {
        self.open
    }

    /// Opens the file dialog for a fresh session: the selection is
    /// cleared and the cursor unset; the directory is kept.
    pub fn open(&mut self)
        requires
            old(self).wf(),
        ensures
            final(self).wf(),
            same_listing(*old(self), *final(self)),
            final(self).open,
            final(self).cursor is None,
            final(self).selected@.len() == old(self).selected@.len(),
            forall|k: int| 0 <= k < final(self).selected@.len() ==> !final(self).selected@[k],
    {
        let len = self.selected.len();
        self.selected = falses(len);
        self.cursor = None;
        self.open = true;
    }

    /// Closes the file dialog.
    pub fn close(&mut self)
        ensures
            *final(self) == (FileDialog { open: false, ..*old(self) }),
    {
        self.open = false;
    }

    /// Goes to the next row of the listing.
    pub fn next(&mut self)
        requires
            old(self).wf(),
        ensures
            final(self).wf(),
            moved_next(*old(self), *final(self)),
    {
        let len = self.items.len();
        let i: usize = match self.cursor {
            Some(i) => if i + 1 < len {
                i + 1
            } else {
                len - 1
            },
            None => if len > 1 {
                1
            } else {
                0
            },
        };
        self.cursor = Some(i);
    }

    /// Goes to the previous row of the listing.
    pub fn previous(&mut self)
        requires
            old(self).wf(),
        ensures
            final(self).wf(),
            moved_prev(*old(self), *final(self)),
    {
        let i: usize = match self.cursor {
            Some(i) => if i > 0 {
                i - 1
            } else {
                0
            },
            None => 0,
        };
        self.cursor = Some(i);
    }

    /// Toggles the selection of the row under the cursor; with the
    /// cursor unset it only positions the cursor, like `next`.
    pub fn toggle_selection(&mut self)
        requires
            old(self).wf(),
        ensures
            final(self).wf(),
            final(self).open == old(self).open,
            (match old(self).cursor {
                None => moved_next(*old(self), *final(self)),
                Some(i) => toggled_at(*old(self), *final(self), i as int),
            }),
    {
        match self.cursor {
            None => self.next(),
            Some(i) => {
                let was = self.selected[i];
                self.selected[i] = !was;
            },
        }
    }

    /// Selects the row under the cursor: positions a fresh cursor,
    /// picks a file (closing the dialog outside multi selection), or
    /// asks for the directory's scan before moving into it.
    pub fn select(&mut self) -> (r: SelectOutcome)
        requires
            old(self).wf(),
            old(self).open,
        ensures
            final(self).wf(),
            (match old(self).cursor {
                None => r is Moved && moved_next(*old(self), *final(self)),
                Some(i) => if is_file_row(*old(self), i as int) {
                    r is Picked && toggled_at(*old(self), *final(self), i as int)
                        && final(self).open == old(self).multi_selection
                } else {
                    *final(self) == *old(self) && (r matches SelectOutcome::NeedsScan(t)
                        && entry_views(t@) == nav_target(*old(self), i as int))
                },
            }),
    {
        match self.cursor {
            None => {
                self.next();
                SelectOutcome::Moved
            },
            Some(i) => {
                let e = self.items[i].clone();
                let parent = is_dotdot_str(e.as_str());
                if !parent && !is_dir_entry_str(e.as_str()) {
                    let was = self.selected[i];
                    self.selected[i] = !was;
                    if !self.multi_selection {
                        self.open = false;
                    }
                    SelectOutcome::Picked
                } else if parent {
                    let t = parent_of(&self.current_dir);
                    SelectOutcome::NeedsScan(t)
                } else {
                    let mut t = self.current_dir.clone();
                    t.push(strip_entry_string(e.as_str()));
                    proof {
                        assert(entry_views(t@) =~= nav_target(*old(self), i as int));
                    }
                    SelectOutcome::NeedsScan(t)
                }
            },
        }
    }

    /// Rebuilds the listing from a fresh scan of the current directory
    /// and resets cursor and selection.
    fn rebuild(&mut self, raw: &Vec<RawEntry>)
        requires
            old(self).wf(),
            raw_ok(raw@),
        ensures
            final(self).wf(),
            scan_committed(
                *old(self),
                *final(self),
                entry_views(old(self).current_dir@),
                old(self).filter,
                old(self).show_hidden,
                raw@,
            ),
            final(self).current_dir == old(self).current_dir,
    {
        let items = build_listing(raw, &self.filter, self.show_hidden);
        let len = items.len();
        self.items = items;
        self.selected = falses(len);
        self.cursor = if len > 1 {
            Some(1)
        } else {
            Some(0)
        };
    }

    /// Moves the dialog to a directory whose scan succeeded and commits
    /// the fresh listing.
    pub fn set_dir(&mut self, dir: Vec<String>, raw: Vec<RawEntry>)
        requires
            old(self).wf(),
            raw_ok(raw@),
        ensures
            final(self).wf(),
            scan_committed(
                *old(self),
                *final(self),
                entry_views(dir@),
                old(self).filter,
                old(self).show_hidden,
                raw@,
            ),
    {
        self.current_dir = dir;
        self.rebuild(&raw);
    }

    /// Moves one directory up, given the parent's successful scan; at
    /// the filesystem root the directory stays the root.
    pub fn up(&mut self, raw: Vec<RawEntry>)
        requires
            old(self).wf(),
            raw_ok(raw@),
        ensures
            final(self).wf(),
            scan_committed(
                *old(self),
                *final(self),
                parent_components(entry_views(old(self).current_dir@)),
                old(self).filter,
                old(self).show_hidden,
                raw@,
            ),
    {
        let p = parent_of(&self.current_dir);
        self.current_dir = p;
        self.rebuild(&raw);
    }

    /// The directory a host must scan before calling `up`.
    pub fn parent_dir(&self) -> (r: Vec<String>)
        ensures
            entry_views(r@) == parent_components(entry_views(self.current_dir@)),
    {
        parent_of(&self.current_dir)
    }

    /// Sets the filter, given the current directory's fresh scan.
    pub fn set_filter(&mut self, filter: FilePattern, raw: Vec<RawEntry>)
        requires
            old(self).wf(),
            raw_ok(raw@),
        ensures
            final(self).wf(),
            scan_committed(
                *old(self),
                *final(self),
                entry_views(old(self).current_dir@),
                Some(filter),
                old(self).show_hidden,
                raw@,
            ),
    {
        self.filter = Some(filter);
        self.rebuild(&raw);
    }

    /// Removes the filter, given the current directory's fresh scan.
    pub fn reset_filter(&mut self, raw: Vec<RawEntry>)
        requires
            old(self).wf(),
            raw_ok(raw@),
        ensures
            final(self).wf(),
            scan_committed(
                *old(self),
                *final(self),
                entry_views(old(self).current_dir@),
                None::<FilePattern>,
                old(self).show_hidden,
                raw@,
            ),
    {
        self.filter = None;
        self.rebuild(&raw);
    }

    /// Flips whether hidden names are shown, given the current
    /// directory's fresh scan.
    pub fn toggle_show_hidden(&mut self, raw: Vec<RawEntry>)
        requires
            old(self).wf(),
            raw_ok(raw@),
        ensures
            final(self).wf(),
            scan_committed(
                *old(self),
                *final(self),
                entry_views(old(self).current_dir@),
                old(self).filter,
                !old(self).show_hidden,
                raw@,
            ),
    {
        self.show_hidden = !self.show_hidden;
        self.rebuild(&raw);
    }

    /// Returns the finished pick once the dialog has closed, as the
    /// selected rows' absolute paths in row order, and clears the
    /// selection; while the dialog is open there is no result yet.
    pub fn selected_files(&mut self) -> (r: Option<Vec<String>>)
        requires
            old(self).wf(),
        ensures
            final(self).wf(),
            old(self).open ==> (r is None && *final(self) == *old(self)),
            !old(self).open ==> {
                &&& same_listing(*old(self), *final(self))
                &&& !final(self).open
                &&& final(self).cursor == old(self).cursor
                &&& final(self).selected@.len() == old(self).selected@.len()
                &&& forall|k: int|
                    0 <= k < final(self).selected@.len() ==> !final(self).selected@[k]
                &&& (r matches Some(files) && entry_views(files@) == paths_upto(
                    *old(self),
                    old(self).selected@.len() as int,
                ))
            },
    {
        if self.is_open() {
            return None;
        }
        let n = self.selected.len();
        let mut files: Vec<String> = Vec::new();
        let mut i: usize = 0;
        proof {
            assert(entry_views(files@) =~= paths_upto(*self, 0));
        }
        while i < n
            invariant
                self.wf(),
                !self.open,
                i <= n,
                n == self.selected@.len(),
                entry_views(files@) == paths_upto(*self, i as int),
            decreases n - i,
        {
            if self.selected[i] {
                let p = entry_path_string(&self.current_dir, self.items[i].as_str());
                let ghost pre_files = files@;
                files.push(p);
                proof {
                    assert(entry_views(files@) =~= entry_views(pre_files).push(p@));
                }
            }
            i = i + 1;
        }
        self.selected = falses(n);
        Some(files)
    }
}

/// The prefix a renderer shows before a row: a checked or unchecked
/// box in multi selection, nothing otherwise.
pub fn row_prefix(multi_selection: bool, selected: bool) -> (r: &'static str)
    ensures
        multi_selection && selected ==> r@ == "☑ "@,
        multi_selection && !selected ==> r@ == "☐ "@,
        !multi_selection ==> r@ == ""@,
{
    if multi_selection {
        if selected {
            "☑ "
        } else {
            "☐ "
        }
    } else {
        ""
    }
}

/// Both cursor moves land on a row of the listing, so any run of
/// forward and backward moves keeps the cursor within it.
pub proof fn lemma_moves_stay_in_range(d: FileDialog)
    requires
        d.wf(),
    ensures
        0 <= d.spec_next_cursor() < d.items@.len(),
        0 <= d.spec_prev_cursor() < d.items@.len(),
{
}

/// Toggling the same row's membership twice restores the selection.
pub proof fn lemma_toggle_twice(sel: Seq<bool>, i: int)
    requires
        0 <= i < sel.len(),
    ensures
        toggled(toggled(sel, i), i) == sel,
{
    assert(toggled(toggled(sel, i), i) =~= sel);
}

proof fn lemma_paths_upto_single(d: FileDialog, i: int, n: int)
    requires
        0 <= i < d.selected@.len(),
        n <= d.selected@.len(),
        forall|k: int| 0 <= k < d.selected@.len() ==> (d.selected@[k] <==> k == i),
    ensures
        n <= i ==> paths_upto(d, n) == Seq::<Seq<char>>::empty(),
        n > i ==> paths_upto(d, n) == seq![
            entry_path(entry_views(d.current_dir@), entry_views(d.items@)[i]),
        ],
    decreases n,
{
    if n > 0 {
        lemma_paths_upto_single(d, i, n - 1);
        if n - 1 == i {
            assert(paths_upto(d, n) =~= seq![
                entry_path(entry_views(d.current_dir@), entry_views(d.items@)[i]),
            ]);
        }
    }
}

/// Picking row `i` out of a fresh session leaves row `i` as the whole
/// selection, so the next collection reports exactly that row's path.
pub proof fn lemma_single_pick_collects_one(pre: FileDialog, post: FileDialog, i: int)
    requires
        pre.wf(),
        0 <= i < pre.selected@.len(),
        forall|k: int| 0 <= k < pre.selected@.len() ==> !pre.selected@[k],
        toggled_at(pre, post, i),
    ensures
        paths_upto(post, post.selected@.len() as int) == seq![
            entry_path(entry_views(post.current_dir@), entry_views(post.items@)[i]),
        ],
{
    assert(post.selected@.len() == pre.selected@.len());
    assert forall|k: int| 0 <= k < post.selected@.len() implies (post.selected@[k] <==> k
        == i) by {}
    lemma_single_pick_path(post, i);
}

/// A session that selected exactly one row reports exactly that row's
/// absolute path.
pub proof fn lemma_single_pick_path(d: FileDialog, i: int)
    requires
        d.wf(),
        0 <= i < d.selected@.len(),
        forall|k: int| 0 <= k < d.selected@.len() ==> (d.selected@[k] <==> k == i),
    ensures
        paths_upto(d, d.selected@.len() as int) == seq![
            entry_path(entry_views(d.current_dir@), entry_views(d.items@)[i]),
        ],
{
    lemma_paths_upto_single(d, i, d.selected@.len() as int);
}

} // verus!
