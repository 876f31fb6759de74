//! Key dispatch: one input event becomes one dialog action while the
//! dialog is open, and passes through untouched while it is closed.

use vstd::prelude::*;
use crate::dialog::{FileDialog, SelectOutcome, is_file_row, moved_next, moved_prev, nav_target,
    toggled_at};
use crate::listing::entry_views;
use crate::paths::parent_components;

verus! {

/// One terminal input event, reduced to what the dialog reads.
pub enum KeyInput {
    Char(char),
    Up,
    Down,
    Enter,
    Esc,
    Other,
}

/// A scan the host must run before the dialog can finish an action:
/// the directory to read, and whether the result commits a move or the
/// flipped hidden flag.
pub enum ScanRequest {
    /// Scan this directory, then commit it with `set_dir`.
    Navigate(Vec<String>),
    /// Scan this directory (the current one), then commit with
    /// `toggle_show_hidden`.
    ToggleHidden(Vec<String>),
}

/// What became of one input event.
pub enum DispatchResult {
    /// The dialog is closed: the host handles the event itself.
    PassThrough,
    /// The event was the dialog's and is fully handled (or ignored).
    Consumed,
    /// The event needs a directory scan to finish.
    Scan(ScanRequest),
}

/// The dialog unchanged and the event consumed without effect.
pub open spec fn ignored(pre: FileDialog, post: FileDialog, r: DispatchResult) -> bool {
    post == pre && r is Consumed
}

/// The dialog closed by the event.
pub open spec fn closed_by_key(pre: FileDialog, post: FileDialog, r: DispatchResult) -> bool {
    post == (FileDialog { open: false, ..pre }) && r is Consumed
}

/// The full key table, for a dialog that is open.
pub open spec fn dispatch_post(
    pre: FileDialog,
    post: FileDialog,
    key: KeyInput,
    r: DispatchResult,
) -> bool {
    match key {
        KeyInput::Esc => closed_by_key(pre, post, r),
        KeyInput::Down => moved_next(pre, post) && r is Consumed,
        KeyInput::Up => moved_prev(pre, post) && r is Consumed,
        KeyInput::Enter => select_dispatched(pre, post, r),
        KeyInput::Other => ignored(pre, post, r),
        KeyInput::Char(c) => if c == 'q' {
            closed_by_key(pre, post, r)
        } else if c == 'j' {
            moved_next(pre, post) && r is Consumed
        } else if c == 'k' {
            moved_prev(pre, post) && r is Consumed
        } else if c == ' ' {
            if pre.multi_selection {
                (match pre.cursor {
                    None => moved_next(pre, post),
                    Some(i) => toggled_at(pre, post, i as int) && post.open == pre.open,
                }) && r is Consumed
            } else {
                ignored(pre, post, r)
            }
        } else if c == 'u' {
            post == pre && (r matches DispatchResult::Scan(ScanRequest::Navigate(d))
                && entry_views(d@) == parent_components(entry_views(pre.current_dir@)))
        } else if c == 'I' {
            post == pre && (r matches DispatchResult::Scan(ScanRequest::ToggleHidden(d))
                && entry_views(d@) == entry_views(pre.current_dir@))
        } else {
            ignored(pre, post, r)
        },
    }
}

/// What Enter leaves behind: `select`'s outcome carried into the
/// dispatch result.
pub open spec fn select_dispatched(pre: FileDialog, post: FileDialog, r: DispatchResult) -> bool {
    match pre.cursor {
        None => moved_next(pre, post) && r is Consumed,
        Some(i) => if is_file_row(pre, i as int) {
            toggled_at(pre, post, i as int) && post.open == pre.multi_selection && r is Consumed
        } else {
            post == pre && (r matches DispatchResult::Scan(ScanRequest::Navigate(d))
                && entry_views(d@) == nav_target(pre, i as int))
        },
    }
}

impl FileDialog {
    /// Consumes one input event: while open, the key table below;
    /// while closed, the event is the host's.
    ///
    /// | key | action |
    /// |---|---|
    /// | `q`, Esc | close |
    /// | `j`, Down | next row |
    /// | `k`, Up | previous row |
    /// | Enter | select |
    /// | Space | toggle the row (multi selection only) |
    /// | `u` | one directory up |
    /// | `I` | toggle hidden names |
    pub fn dispatch(&mut self, key: KeyInput) -> (r: DispatchResult)
        requires
            old(self).wf(),
        ensures
            final(self).wf(),
            !old(self).open ==> (*final(self) == *old(self) && r is PassThrough),
            old(self).open ==> dispatch_post(*old(self), *final(self), key, r),
    {
        if !self.is_open() {
            return DispatchResult::PassThrough;
        }
        match key {
            KeyInput::Esc => {
                self.close();
                DispatchResult::Consumed
            },
            KeyInput::Down => {
                self.next();
                DispatchResult::Consumed
            },
            KeyInput::Up => {
                self.previous();
                DispatchResult::Consumed
            },
            KeyInput::Enter => match self.select() {
                SelectOutcome::Moved => DispatchResult::Consumed,
                SelectOutcome::Picked => DispatchResult::Consumed,
                SelectOutcome::NeedsScan(t) => DispatchResult::Scan(ScanRequest::Navigate(t)),
            },
            KeyInput::Other => DispatchResult::Consumed,
            KeyInput::Char(c) => {
                if c == 'q' {
                    self.close();
                    DispatchResult::Consumed
                } else if c == 'j' {
                    self.next();
                    DispatchResult::Consumed
                } else if c == 'k' {
                    self.previous();
                    DispatchResult::Consumed
                } else if c == ' ' {
                    if self.multi_selection() {
                        self.toggle_selection();
                    }
                    DispatchResult::Consumed
                } else if c == 'u' {
                    let d = self.parent_dir();
                    DispatchResult::Scan(ScanRequest::Navigate(d))
                } else if c == 'I' {
                    let d = self.current_dir.clone();
                    proof {
                        assert(entry_views(d@) =~= entry_views(self.current_dir@));
                    }
                    DispatchResult::Scan(ScanRequest::ToggleHidden(d))
                } else {
                    DispatchResult::Consumed
                }
            },
        }
    }
}

} // verus!
