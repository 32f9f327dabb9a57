//! The two panels of a module tab and the tree guides of the module list.

use vstd::prelude::*;

use crate::text::push_char;

verus! {

/// Focusable module panels.
#[derive(Clone, Copy, Debug, Eq, PartialEq, Structural)]
pub enum ModulePanel {
    /// Module list panel.
    Modules,
    /// Module content panel.
    Content,
}

impl Default for ModulePanel {
    fn default() -> (p: ModulePanel)
        ensures
            p == ModulePanel::Modules,
    {
        ModulePanel::Modules
    }
}

/// After row `row`, a row at depth `level` comes before any row shallower
/// than `level`: the branch at that level goes on below the row.
pub open spec fn continues_at(rows: Seq<(int, int)>, row: int, level: int) -> bool {
    exists|j: int|
        row < j < rows.len() && #[trigger] rows[j].0 == level && forall|m: int|
            row < m <= j ==> #[trigger] rows[m].0 >= level
}

/// The guide columns of row `row` for ancestor levels `1..level`.
pub open spec fn guide_columns(rows: Seq<(int, int)>, row: int, level: int) -> Seq<char>
    decreases level,
{
    if level <= 1 {
        Seq::empty()
    } else {
        guide_columns(rows, row, level - 1) + if continues_at(rows, row, level - 1) {
            "│  "@
        } else {
            "   "@
        }
    }
}

/// The tree guide prefix of row `row`: nothing at depth 0 or past the rows;
/// otherwise a `│  ` (or blank) column per ancestor level whose branch goes
/// on below, then `├─ ` when a sibling follows, else `└─ `.
pub open spec fn spec_tree_prefix(rows: Seq<(int, int)>, row: int) -> Seq<char> {
    if row < 0 || row >= rows.len() || rows[row].0 == 0 {
        Seq::empty()
    } else {
        let depth = rows[row].0;
        guide_columns(rows, row, depth) + if continues_at(rows, row, depth) {
            "├─ "@
        } else {
            "└─ "@
        }
    }
}

/// Guide columns are three characters wide, one column per ancestor level.
proof fn lemma_guide_columns_len(rows: Seq<(int, int)>, row: int, level: int)
    requires
        level >= 1,
    ensures
        guide_columns(rows, row, level).len() == 3 * (level - 1),
    decreases level,
{
    reveal_strlit("│  ");
    reveal_strlit("   ");
    if level > 1 {
        lemma_guide_columns_len(rows, row, level - 1);
    }
}

/// The prefix of a row is three characters per level of depth, and empty
/// for a top-level row or a row past the end.
pub proof fn lemma_tree_prefix_width(rows: Seq<(int, int)>, row: int)
    requires
        0 <= row < rows.len() ==> rows[row].0 >= 0,
    ensures
        spec_tree_prefix(rows, row).len() == if 0 <= row < rows.len() {
            3 * rows[row].0
        } else {
            0
        },
{
    reveal_strlit("├─ ");
    reveal_strlit("└─ ");
    if 0 <= row < rows.len() && rows[row].0 > 0 {
        lemma_guide_columns_len(rows, row, rows[row].0);
    }
}

/// Whether, after row `row`, a row at depth `level` comes before any row
/// shallower than `level`.
fn continues_exec(rows: &[(usize, usize)], row: usize, level: usize) -> (r: bool)
    requires
        row < rows@.len(),
    ensures
        r == continues_at(crate::flake::rows_view(rows@), row as int, level as int),
{
    let ghost rv = crate::flake::rows_view(rows@);
    let n = rows.len();
    assert(row < n);
    let mut j = row + 1;
    while j < rows.len()
        invariant
            rv == crate::flake::rows_view(rows@),
            row < j <= rows@.len(),
            forall|m: int| row < m < j ==> #[trigger] rv[m].0 > level,
        decreases rows@.len() - j,
    {
        let d = rows[j].0;
        assert(rv[j as int].0 == d);
        if d < level {
            proof {
                assert forall|k: int|
                    row < k < rv.len() && #[trigger] rv[k].0 == level implies !(forall|m: int|
                    row < m <= k ==> #[trigger] rv[m].0 >= level) by {
                    if k < j {
                    } else {
                        assert(rv[j as int].0 < level);
                    }
                }
            }
            return false;
        }
        if d == level {
            return true;
        }
        j = j + 1;
    }
    proof {
        assert forall|k: int|
            row < k < rv.len() && #[trigger] rv[k].0 == level implies !(forall|m: int|
            row < m <= k ==> #[trigger] rv[m].0 >= level) by {
            assert(rv[k].0 > level);
        }
    }
    false
}

/// Builds the tree guide prefix (`│  ├─ └─`) for a module row.
pub fn tree_prefix(rows: &[(usize, usize)], row: usize) -> (r: String)
    ensures
        r@ == spec_tree_prefix(crate::flake::rows_view(rows@), row as int),
        r@.len() == if row < rows@.len() { 3 * rows@[row as int].0 } else { 0 },
{
    proof {
        lemma_tree_prefix_width(crate::flake::rows_view(rows@), row as int);
    }
    let ghost rv = crate::flake::rows_view(rows@);
    if row >= rows.len() {
        return String::new();
    }
    let depth = rows[row].0;
    assert(rv[row as int].0 == depth);
    if depth == 0 {
        return String::new();
    }
    let mut prefix = String::new();
    let mut level: usize = 1;
    while level < depth
        invariant
            rv == crate::flake::rows_view(rows@),
            row < rows@.len(),
            1 <= level <= depth,
            prefix@ == guide_columns(rv, row as int, level as int),
        decreases depth - level,
    {
        if continues_exec(rows, row, level) {
            prefix.append("│  ");
        } else {
            prefix.append("   ");
        }
        level = level + 1;
    }
    if continues_exec(rows, row, depth) {
        prefix.append("├─ ");
    } else {
        prefix.append("└─ ");
    }
    prefix
}

impl ModulePanel {
    /// Builds the tree guide prefix (`│  ├─ └─`) for a module row.
    pub fn tree_prefix(rows: &[(usize, usize)], row: usize) -> (r: String)
        ensures
            r@ == spec_tree_prefix(crate::flake::rows_view(rows@), row as int),
    {
        self::tree_prefix(rows, row)
    }
}

} // verus!
