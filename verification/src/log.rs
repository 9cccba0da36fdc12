//! The action log as a state machine: a history with a cursor, over a table.
//! Everything before the cursor can be undone, everything after it redone.

use crate::action::Action;
use crate::tableau::Board;
use vstd::prelude::*;

verus! {

/// A game as plain values: the table, the recorded actions, and the cursor
/// that parts the actions done from those undone.
pub struct Game {
    pub board: Board,
    pub history: Seq<Action>,
    pub head: int,
}

/// The `head` actions before the cursor can be taken back one after another,
/// newest first, and lead back to a table with no suit completed.
pub open spec fn rewinds(b: Board, history: Seq<Action>, head: int) -> bool
    decreases head,
{
    if head <= 0 {
        b.completed == 0
    } else {
        history[head - 1].made(b) && rewinds(history[head - 1].revert(b), history, head - 1)
    }
}

/// The actions from the cursor on can be carried out one after another.
pub open spec fn replays(b: Board, history: Seq<Action>, head: int) -> bool
    decreases history.len() - head,
{
    if head >= history.len() {
        true
    } else {
        history[head].applies_to(b) && replays(history[head].apply(b), history, head + 1)
    }
}

impl Game {
    /// The table is well formed, the cursor lies within the history, and the
    /// history fits the table: it can be rewound to the start and replayed
    /// to the end.
    pub open spec fn wf(self) -> bool {
        &&& self.board.wf()
        &&& 0 <= self.head <= self.history.len()
        &&& rewinds(self.board, self.history, self.head)
        &&& replays(self.board, self.history, self.head)
    }

    /// Record `action` at the cursor: what lay beyond the cursor is dropped.
    pub open spec fn write(self, action: Action) -> Game {
        Game { history: self.history.take(self.head).push(action), head: self.head + 1, ..self }
    }

    /// Carry out `action` and record it.
    pub open spec fn perform(self, action: Action) -> Game {
        Game { board: action.apply(self.board), ..self.write(action) }
    }

    /// Take back the action before the cursor, if there is one.
    pub open spec fn undo(self) -> Game {
        if self.head <= 0 {
            self
        } else {
            Game {
                board: self.history[self.head - 1].revert(self.board),
                head: self.head - 1,
                ..self
            }
        }
    }

    /// Carry out again the action at the cursor, if there is one.
    pub open spec fn redo(self) -> Game {
        if self.head >= self.history.len() {
            self
        } else {
            Game { board: self.history[self.head].apply(self.board), head: self.head + 1, ..self }
        }
    }

    /// Undo until nothing is left to undo. The history stays.
    pub open spec fn restart(self) -> Game
        decreases self.head,
    {
        if self.head <= 0 {
            self
        } else {
            self.undo().restart()
        }
    }

    /// Never more suits are completed than actions are done.
    pub proof fn lemma_completed_bound(self)
        requires
            self.head >= 0,
            rewinds(self.board, self.history, self.head),
        ensures
            self.board.completed <= self.head,
        decreases self.head,
    {
        if self.head > 0 {
            self.undo().lemma_completed_bound();
        }
    }

    /// A performed action leaves a well-formed game, with nothing to redo.
    pub proof fn lemma_perform_wf(self, action: Action)
        requires
            self.wf(),
            action.applies_to(self.board),
        ensures
            self.perform(action).wf(),
            self.perform(action).head == self.perform(action).history.len(),
    {
        let next = self.perform(action);
        action.lemma_revert_apply(self.board);
        lemma_rewinds_prefix(self.board, self.history, next.history, self.head);
    }

    /// Undo leaves a well-formed game.
    pub proof fn lemma_undo_wf(self)
        requires
            self.wf(),
        ensures
            self.undo().wf(),
    {
        if self.head > 0 {
            self.history[self.head - 1].lemma_apply_revert(self.board);
        }
    }

    /// Redo leaves a well-formed game.
    pub proof fn lemma_redo_wf(self)
        requires
            self.wf(),
        ensures
            self.redo().wf(),
    {
        if self.head < self.history.len() {
            self.history[self.head].lemma_revert_apply(self.board);
        }
    }

    /// Restart leaves a well-formed game with the cursor at the start and the
    /// history as it was.
    pub proof fn lemma_restart_wf(self)
        requires
            self.wf(),
        ensures
            self.restart().wf(),
            self.restart().head == 0,
            self.restart().history == self.history,
        decreases self.head,
    {
        if self.head > 0 {
            self.lemma_undo_wf();
            self.undo().lemma_restart_wf();
        }
    }

    /// Undo after a legal action gives back every tracked part of the table,
    /// and the cursor.
    pub proof fn lemma_undo_inverts_perform(self, action: Action)
        requires
            self.wf(),
            action.applies_to(self.board),
        ensures
            self.perform(action).undo().board == self.board,
            self.perform(action).undo().head == self.head,
    {
        action.lemma_revert_apply(self.board);
    }

    /// Redo after undo after a legal action gives the game as the action left it.
    pub proof fn lemma_redo_inverts_undo(self, action: Action)
        requires
            self.wf(),
            action.applies_to(self.board),
        ensures
            self.perform(action).undo().redo() == self.perform(action),
    {
        action.lemma_revert_apply(self.board);
    }

    /// Undo and then redo leaves any game with something to undo as it was.
    pub proof fn lemma_undo_redo(self)
        requires
            self.wf(),
            self.head > 0,
        ensures
            self.undo().redo() == self,
    {
        self.history[self.head - 1].lemma_apply_revert(self.board);
    }

    /// After an undo, writing a new action leaves nothing to redo: the
    /// cursor stands at the end of the history, whose last entry is the new
    /// action.
    pub proof fn lemma_write_drops_future(self, action: Action)
        requires
            self.wf(),
        ensures
            self.undo().write(action).head == self.undo().write(action).history.len(),
            self.undo().write(action).history.last() == action,
            self.undo().write(action).redo() == self.undo().write(action),
    {
    }
}

/// Whether a history rewinds depends only on the actions before the cursor.
pub proof fn lemma_rewinds_prefix(b: Board, h1: Seq<Action>, h2: Seq<Action>, head: int)
    requires
        0 <= head <= h1.len(),
        head <= h2.len(),
        forall|i: int| 0 <= i < head ==> h1[i] == h2[i],
        rewinds(b, h1, head),
    ensures
        rewinds(b, h2, head),
    decreases head,
{
    if head > 0 {
        lemma_rewinds_prefix(h1[head - 1].revert(b), h1, h2, head - 1);
    }
}

} // verus!
