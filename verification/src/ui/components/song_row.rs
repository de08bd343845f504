//! What a song row shows and which of its clicks counts.

use vstd::prelude::*;

verus! {

/// Which parts of a song row are drawn.
#[derive(Debug, Clone, Copy)]
pub struct RowOptions {
    pub show_remove: bool,
    pub show_play: bool,
    pub highlighted: bool,
}

impl Default for RowOptions {
    fn default() -> (r: Self)
        ensures
            r.show_remove,
            r.show_play,
            !r.highlighted,
    {
        RowOptions { show_remove: true, show_play: true, highlighted: false }
    }
}

/// What a click on a row asked for.
#[derive(Debug, Clone, Copy)]
pub struct RowAction {
    pub clicked: bool,
    pub play_clicked: bool,
    pub remove_clicked: bool,
}

impl RowAction {
    /// Resolves the clicks of one frame: the remove button wins over the play
    /// button, which wins over a click on the row itself; at most one action
    /// results.
    pub fn from_hits(row_clicked: bool, play_clicked: bool, remove_clicked: bool) -> (r: RowAction)
        ensures
            r.remove_clicked == remove_clicked,
            r.play_clicked == (play_clicked && !remove_clicked),
            r.clicked == (row_clicked && !play_clicked && !remove_clicked),
    {
        if remove_clicked {
            RowAction { clicked: false, play_clicked: false, remove_clicked: true }
        } else if play_clicked {
            RowAction { clicked: false, play_clicked: true, remove_clicked: false }
        } else {
            RowAction { clicked: row_clicked, play_clicked: false, remove_clicked: false }
        }
    }
}

/// A row click resolves to at most one action.
pub proof fn lemma_row_action_exclusive(a: RowAction, row: bool, play: bool, remove: bool)
    requires
        a.remove_clicked == remove,
        a.play_clicked == (play && !remove),
        a.clicked == (row && !play && !remove),
    ensures
        !(a.clicked && a.play_clicked),
        !(a.clicked && a.remove_clicked),
        !(a.play_clicked && a.remove_clicked),
{
}

} // verus!
