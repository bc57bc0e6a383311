use vstd::prelude::*;

verus! {

/// Which table of captured frames is on screen.
#[derive(Clone, Copy, Debug, PartialEq, Eq, Structural)]
pub enum FrameView {
    /// The chronological log.
    FrameList,
    /// One row per identifier, with its count.
    FrameSet,
}

impl FrameView {
    /// The other table.
    pub fn toggled(self) -> (r: FrameView)
        ensures
            r == (match self {
                FrameView::FrameList => FrameView::FrameSet,
                FrameView::FrameSet => FrameView::FrameList,
            }),
    {
        match self {
            FrameView::FrameList => FrameView::FrameSet,
            FrameView::FrameSet => FrameView::FrameList,
        }
    }
}

/// The row selected after moving down in a table of `len` rows: the next
/// row, wrapping from the last to the first; the first when none was
/// selected.
pub fn next_selection(selected: Option<usize>, len: usize) -> (r: usize)
    requires
        selected is Some ==> len > 0,
    ensures
        r == (match selected {
            Some(i) => if i >= len - 1 {
                0
            } else {
                i + 1
            },
            None => 0,
        }),
{
    match selected {
        Some(i) => {
            if i >= len - 1 {
                0
            } else {
                i + 1
            }
        },
        None => 0,
    }
}

/// The row selected after moving up in a table of `len` rows: the previous
/// row, wrapping from the first to the last; the last when none was
/// selected.
pub fn prev_selection(selected: Option<usize>, len: usize) -> (r: usize)
    requires
        (selected is None || selected == Some(0usize)) ==> len > 0,
    ensures
        r == (match selected {
            Some(i) => if i == 0 {
                len - 1
            } else {
                i - 1
            },
            None => len - 1,
        }),
{
    match selected {
        Some(i) => {
            if i == 0 {
                len - 1
            } else {
                i - 1
            }
        },
        None => len - 1,
    }
}

} // verus!
