//! A list of items with an optional selected item.

use vstd::prelude::*;

verus! {

/// The last row of a list of `len` rows (the first one when it is empty).
pub open spec fn spec_last_row(len: int) -> usize {
    if len <= 0 {
        0
    } else {
        (len - 1) as usize
    }
}

/// The row selected `amount` rows below `selected` in a list of `len`
/// rows: past the end it wraps to the first row; with no selection, the
/// first row.
pub open spec fn spec_next_selection(selected: Option<usize>, len: int, amount: usize) -> usize {
    match selected {
        Some(i) => if i + amount >= len {
            0
        } else {
            (i + amount) as usize
        },
        None => 0,
    }
}

/// The row selected `amount` rows above `selected` in a list of `len`
/// rows: it stops at the first row, and from the first row it wraps to the
/// last one; with no selection, the first row.
pub open spec fn spec_previous_selection(selected: Option<usize>, len: int, amount: usize) -> usize {
    match selected {
        Some(i) => if i == 0 {
            spec_last_row(len)
        } else if amount >= i {
            0
        } else {
            (i - amount) as usize
        },
        None => 0,
    }
}

/// A list of items with an optional selected item.
#[derive(Debug)]
pub struct SelectableList<T> {
    /// The items.
    pub items: Vec<T>,
    /// Selected row.
    pub selected: Option<usize>,
}

impl<T> SelectableList<T> {
    /// An empty list with no selection.
    pub fn new() -> (l: SelectableList<T>)
        ensures
            l.items@.len() == 0,
            l.selected is None,
    {
        SelectableList { items: Vec::new(), selected: None }
    }

    /// A list of `items`, the first row selected when there is one.
    pub fn with_items(items: Vec<T>) -> (l: SelectableList<T>)
        ensures
            l.items@ == items@,
            l.selected == (if items@.len() == 0 { None } else { Some(0usize) }),
    {
        let selected = if items.len() == 0 {
            None
        } else {
            Some(0)
        };
        SelectableList { items, selected }
    }

    /// Moves the selection `amount` rows down, wrapping to the first row
    /// past the end; with no selection, selects the first row.
    pub fn next(&mut self, amount: usize)
        ensures
            final(self).items == old(self).items,
            final(self).selected == Some(
                spec_next_selection(old(self).selected, old(self).items@.len() as int, amount),
            ),
    {
        let i = match self.selected {
            Some(i) => {
                if i >= self.items.len() || amount >= self.items.len() - i {
                    0
                } else {
                    i + amount
                }
            },
            None => 0,
        };
        self.selected = Some(i);
    }

    /// Moves the selection `amount` rows up, stopping at the first row;
    /// from the first row it wraps to the last one; with no selection,
    /// selects the first row.
    pub fn previous(&mut self, amount: usize)
        ensures
            final(self).items == old(self).items,
            final(self).selected == Some(
                spec_previous_selection(old(self).selected, old(self).items@.len() as int, amount),
            ),
    {
        let i = match self.selected {
            Some(i) => {
                if i == 0 {
                    if self.items.len() == 0 {
                        0
                    } else {
                        self.items.len() - 1
                    }
                } else if amount >= i {
                    0
                } else {
                    i - amount
                }
            },
            None => 0,
        };
        self.selected = Some(i);
    }

    /// Selects the first row.
    pub fn first(&mut self)
        ensures
            final(self).items == old(self).items,
            final(self).selected == Some(0usize),
    {
        self.selected = Some(0);
    }

    /// Selects the last row (the first one of an empty list).
    pub fn last(&mut self)
        ensures
            final(self).items == old(self).items,
            final(self).selected == Some(spec_last_row(old(self).items@.len() as int)),
    {
        let i = if self.items.len() == 0 {
            0
        } else {
            self.items.len() - 1
        };
        self.selected = Some(i);
    }
}

impl<T> Default for SelectableList<T> {
    fn default() -> (l: SelectableList<T>)
        ensures
            l.items@.len() == 0,
            l.selected is None,
    {
        SelectableList { items: Vec::new(), selected: None }
    }
}

} // verus!
