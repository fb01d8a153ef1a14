//! Locating the selected connection in a list, its neighbours, and the
//! scroll window that keeps it in view.
use vstd::prelude::*;

use crate::entry::{same_connection, views, ConnectionEntry, EntryView};

verus! {

/// The first index from `i` on whose entry is the same connection as `t`,
/// or -1.
pub open spec fn match_from(s: Seq<EntryView>, t: EntryView, i: int) -> int
    decreases s.len() - i,
{
    if i < 0 || i >= s.len() {
        -1
    } else if same_connection(s[i], t) {
        i
    } else {
        match_from(s, t, i + 1)
    }
}

/// The first index whose entry is the same connection as `t`, or -1.
pub open spec fn first_match(s: Seq<EntryView>, t: EntryView) -> int {
    match_from(s, t, 0)
}

/// The entry just before the first occurrence of `t`.
pub open spec fn previous_of(s: Seq<EntryView>, t: EntryView) -> Option<EntryView> {
    let i = first_match(s, t);
    if i >= 1 {
        Some(s[i - 1])
    } else {
        None
    }
}

/// The entry just after the first occurrence of `t`.
pub open spec fn next_of(s: Seq<EntryView>, t: EntryView) -> Option<EntryView> {
    let i = first_match(s, t);
    if 0 <= i && i + 1 < s.len() {
        Some(s[i + 1])
    } else {
        None
    }
}

/// The largest scroll offset that still fills the window: `max(0, n - h)`.
pub open spec fn max_scroll(n: int, h: int) -> int {
    if n > h {
        n - h
    } else {
        0
    }
}

/// The scroll offset after a render: moved up to a selection above the
/// window, moved down so that a selection at or past the window's last row
/// sits on its second-to-last row, and in every case clamped to `max_scroll`.
pub open spec fn scroll_for(scroll: int, selected: Option<int>, h: int, n: int) -> int {
    let moved = match selected {
        None => scroll,
        Some(i) => if i < scroll {
            i
        } else if i + 1 >= scroll + h {
            i + 2 - h
        } else {
            scroll
        },
    };
    if moved < max_scroll(n, h) {
        moved
    } else {
        max_scroll(n, h)
    }
}

/// The index of the first entry of `list` that is the same connection as
/// `target`.
pub fn position_of(list: &Vec<ConnectionEntry>, target: &ConnectionEntry) -> (r: Option<usize>)
    ensures
        match r {
            Some(i) => i as int == first_match(views(list@), target@) && i < list@.len(),
            None => first_match(views(list@), target@) == -1,
        },
{
    let ghost s = views(list@);
    let mut i: usize = 0;
    while i < list.len()
        invariant
            s == views(list@),
            i <= list@.len(),
            first_match(s, target@) == match_from(s, target@, i as int),
        decreases list@.len() - i,
    {
        if list[i] == *target {
            return Some(i);
        }
        i = i + 1;
    }
    None
}

/// The entry just before the first occurrence of `entry` in `list`, if both
/// exist.
pub fn find_previous<'a>(list: &'a Vec<ConnectionEntry>, entry: &ConnectionEntry) -> (r: Option<
    &'a ConnectionEntry,
>)
    ensures
        match r {
            Some(e) => previous_of(views(list@), entry@) == Some(e@),
            None => previous_of(views(list@), entry@) is None,
        },
{
    match position_of(list, entry) {
        Some(i) => {
            if i >= 1 {
                Some(&list[i - 1])
            } else {
                None
            }
        },
        None => None,
    }
}

/// The entry just after the first occurrence of `entry` in `list`, if both
/// exist.
pub fn find_next<'a>(list: &'a Vec<ConnectionEntry>, entry: &ConnectionEntry) -> (r: Option<
    &'a ConnectionEntry,
>)
    ensures
        match r {
            Some(e) => next_of(views(list@), entry@) == Some(e@),
            None => next_of(views(list@), entry@) is None,
        },
{
    match position_of(list, entry) {
        Some(i) => {
            if i < list.len() - 1 {
                Some(&list[i + 1])
            } else {
                None
            }
        },
        None => None,
    }
}

/// The scroll offset for a window of `height` rows over `len` rows, with the
/// selected row at index `selected` if there is one.
pub fn reconcile_scroll(scroll: usize, selected: Option<usize>, height: usize, len: usize) -> (r:
    usize)
    requires
        selected matches Some(i) ==> i < len,
    ensures
        r as int == scroll_for(
            scroll as int,
            match selected {
                Some(i) => Some(i as int),
                None => None,
            },
            height as int,
            len as int,
        ),
{
    let upper: usize = if len > height {
        len - height
    } else {
        0
    };
    let moved: usize = match selected {
        None => scroll,
        Some(i) => {
            if i < scroll {
                i
            } else if i + 1 - scroll >= height {
                if height >= 2 {
                    i - (height - 2)
                } else if upper <= i + 1 {
                    upper
                } else {
                    i + 2 - height
                }
            } else {
                scroll
            }
        },
    };
    if moved < upper {
        moved
    } else {
        upper
    }
}

/// After reconciliation with a window of at least two rows, the selected row
/// lies inside the window, and the offset lies between zero and
/// `max(0, n - h)`.
pub proof fn lemma_scroll_keeps_selection_visible(scroll: int, i: int, h: int, n: int)
    requires
        0 <= scroll,
        0 <= i < n,
        h >= 2,
    ensures
        scroll_for(scroll, Some(i), h, n) <= i < scroll_for(scroll, Some(i), h, n) + h,
        0 <= scroll_for(scroll, Some(i), h, n) <= max_scroll(n, h),
{
}

} // verus!
