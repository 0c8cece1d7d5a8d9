//! The selection cursor: an optional index into the task list, moved by
//! navigation commands and re-validated after deletions so that it never
//! points past the end.

use vstd::prelude::*;

verus! {

/// Whether the cursor is empty or a valid index for a list of length `len`.
pub open spec fn sel_wf(sel: Option<int>, len: int) -> bool {
    match sel {
        Some(i) => 0 <= i < len,
        None => true,
    }
}

/// Moving down: selects the first task when nothing is selected, else
/// advances by one, clamped at the last valid index. No-op on an empty list.
pub open spec fn next_spec(sel: Option<int>, len: int) -> Option<int> {
    if len == 0 {
        sel
    } else {
        match sel {
            None => Some(0),
            Some(i) => if i + 1 < len {
                Some(i + 1)
            } else {
                Some(len - 1)
            },
        }
    }
}

/// Moving up: selects the last task when nothing is selected, else steps
/// back by one, clamped at index zero. No-op on an empty list.
pub open spec fn previous_spec(sel: Option<int>, len: int) -> Option<int> {
    if len == 0 {
        sel
    } else {
        match sel {
            None => Some(len - 1),
            Some(i) => if i > 0 {
                Some(i - 1)
            } else {
                Some(0)
            },
        }
    }
}

/// Jump to the first task. No-op on an empty list.
pub open spec fn first_spec(sel: Option<int>, len: int) -> Option<int> {
    if len == 0 {
        sel
    } else {
        Some(0)
    }
}

/// Jump to the last task. No-op on an empty list.
pub open spec fn last_spec(sel: Option<int>, len: int) -> Option<int> {
    if len == 0 {
        sel
    } else {
        Some(len - 1)
    }
}

/// The cursor after the task at `removed` was deleted, leaving `new_len`
/// tasks: an empty cursor stays empty; a cursor on the removed task clamps
/// to the nearest remaining index or clears when nothing remains; a cursor
/// above the removed slot shifts down with its task; a cursor below stays.
pub open spec fn reconcile_spec(sel: Option<int>, removed: int, new_len: int) -> Option<int> {
    match sel {
        None => None,
        Some(s) => if s == removed {
            if new_len == 0 {
                None
            } else if removed < new_len {
                Some(removed)
            } else {
                Some(new_len - 1)
            }
        } else if s > removed {
            Some(s - 1)
        } else {
            Some(s)
        },
    }
}

/// The selection cursor.
pub struct Selection {
    pub idx: Option<usize>,
}

impl View for Selection {
    type V = Option<int>;

    open spec fn view(&self) -> Option<int> {
        match self.idx {
            Some(i) => Some(i as int),
            None => None,
        }
    }
}

impl Selection {
    pub fn new() -> (r: Self)
        ensures
            r@ is None,
    {
        Self { idx: None }
    }

    /// The current cursor, for the presentation layer.
    pub fn selected(&self) -> (r: Option<usize>)
        ensures
            r == self.idx,
            r matches Some(i) ==> self@ == Some(i as int),
            r is None ==> self@ is None,
    {
        self.idx
    }

    pub fn select_none(&mut self)
        ensures
            final(self)@ is None,
    {
        self.idx = None;
    }

    pub fn select_next(&mut self, len: usize)
        requires
            sel_wf(old(self)@, len as int),
        ensures
            final(self)@ == next_spec(old(self)@, len as int),
            sel_wf(final(self)@, len as int),
    {
        if len == 0 {
            return ;
        }
        self.idx = match self.idx {
            None => Some(0),
            Some(i) => if i + 1 < len {
                Some(i + 1)
            } else {
                Some(len - 1)
            },
        };
    }

    pub fn select_previous(&mut self, len: usize)
        requires
            sel_wf(old(self)@, len as int),
        ensures
            final(self)@ == previous_spec(old(self)@, len as int),
            sel_wf(final(self)@, len as int),
    {
        if len == 0 {
            return ;
        }
        self.idx = match self.idx {
            None => Some(len - 1),
            Some(i) => if i > 0 {
                Some(i - 1)
            } else {
                Some(0)
            },
        };
    }

    pub fn select_first(&mut self, len: usize)
        ensures
            final(self)@ == first_spec(old(self)@, len as int),
            len > 0 ==> sel_wf(final(self)@, len as int),
            len == 0 ==> final(self)@ == old(self)@,
    {
        if len > 0 {
            self.idx = Some(0);
        }
    }

    pub fn select_last(&mut self, len: usize)
        ensures
            final(self)@ == last_spec(old(self)@, len as int),
            len > 0 ==> sel_wf(final(self)@, len as int),
            len == 0 ==> final(self)@ == old(self)@,
    {
        if len > 0 {
            self.idx = Some(len - 1);
        }
    }

    /// Re-validates the cursor after the task at `removed` was deleted and
    /// `new_len` tasks remain.
    pub fn reconcile_after_delete(&mut self, removed: usize, new_len: usize)
        requires
            removed <= new_len,
            sel_wf(old(self)@, new_len + 1),
        ensures
            final(self)@ == reconcile_spec(old(self)@, removed as int, new_len as int),
            sel_wf(final(self)@, new_len as int),
    {
        self.idx = match self.idx {
            None => None,
            Some(s) => if s == removed {
                if new_len == 0 {
                    None
                } else if removed < new_len {
                    Some(removed)
                } else {
                    Some(new_len - 1)
                }
            } else if s > removed {
                Some(s - 1)
            } else {
                Some(s)
            },
        };
    }
}

/// One navigation or deletion command, as it bears on the cursor.
pub ghost enum SelOp {
    ClearSel,
    Next,
    Previous,
    First,
    Last,
    Delete(int),
}

/// The cursor and list length after one command.
pub open spec fn apply_op(sel: Option<int>, len: int, op: SelOp) -> (Option<int>, int) {
    match op {
        SelOp::ClearSel => (None, len),
        SelOp::Next => (next_spec(sel, len), len),
        SelOp::Previous => (previous_spec(sel, len), len),
        SelOp::First => (first_spec(sel, len), len),
        SelOp::Last => (last_spec(sel, len), len),
        SelOp::Delete(i) => if 0 <= i < len {
            (reconcile_spec(sel, i, len - 1), len - 1)
        } else {
            (sel, len)
        },
    }
}

/// The cursor and list length after a sequence of commands.
pub open spec fn run_ops(sel: Option<int>, len: int, ops: Seq<SelOp>) -> (Option<int>, int)
    decreases ops.len(),
{
    if ops.len() == 0 {
        (sel, len)
    } else {
        let p = apply_op(sel, len, ops[0]);
        run_ops(p.0, p.1, ops.drop_first())
    }
}

/// One command keeps the cursor empty or valid.
pub proof fn lemma_apply_op_wf(sel: Option<int>, len: int, op: SelOp)
    requires
        0 <= len,
        sel_wf(sel, len),
    ensures
        0 <= apply_op(sel, len, op).1,
        sel_wf(apply_op(sel, len, op).0, apply_op(sel, len, op).1),
{
}

/// Selection bounds: after any sequence of navigation and deletion commands,
/// starting from any list length and any empty-or-valid cursor, the cursor
/// is still empty or a valid index.
pub proof fn lemma_selection_bounds(sel: Option<int>, len: int, ops: Seq<SelOp>)
    requires
        0 <= len,
        sel_wf(sel, len),
    ensures
        0 <= run_ops(sel, len, ops).1,
        sel_wf(run_ops(sel, len, ops).0, run_ops(sel, len, ops).1),
    decreases ops.len(),
{
    if ops.len() == 0 {
    } else {
        lemma_apply_op_wf(sel, len, ops[0]);
        let p = apply_op(sel, len, ops[0]);
        lemma_selection_bounds(p.0, p.1, ops.drop_first());
    }
}

} // verus!
