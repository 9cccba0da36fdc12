//! Reversible actions: what each one does to the table, what undoing it does,
//! and the proof that the two are exact inverses.

use crate::card::Suit;
use crate::tableau::{full_suit, uncovers, Board};
use vstd::prelude::*;

verus! {

/// One reversible effect, as the log records it. `discover` tells whether the
/// action turned a hidden card over, so that undoing it hides the card again.
#[derive(Clone, Copy, Debug, PartialEq, Eq, Structural)]
pub enum Action {
    /// The cards of `source` from `source_i` up went onto `target`, which held
    /// `target_i` cards before.
    Move { source: usize, source_i: usize, target: usize, target_i: usize, discover: bool },
    /// One card went from the reserve onto each pile.
    Stack,
    /// A complete suit left the pile `pos`.
    CompleteSuit { pos: usize, suit: Suit, discover: bool },
}

/// A hidden count after one card was turned over, or not.
pub open spec fn turned(hidden: int, discover: bool) -> int {
    if discover {
        hidden - 1
    } else {
        hidden
    }
}

/// A hidden count after one card was turned back, or not.
pub open spec fn covered(hidden: int, discover: bool) -> int {
    if discover {
        hidden + 1
    } else {
        hidden
    }
}

impl Action {
    /// The action can be carried out on `b`, and its `discover` flag records
    /// what carrying it out uncovers.
    pub open spec fn applies_to(self, b: Board) -> bool {
        match self {
            Action::Move { source, source_i, target, target_i, discover } => {
                &&& source < 10
                &&& target < 10
                &&& source != target
                &&& b.hidden[source as int] <= source_i < b.piles[source as int].len()
                &&& target_i == b.piles[target as int].len()
                &&& discover == uncovers(source_i as int, b.hidden[source as int])
            },
            Action::Stack => b.stack.len() >= 10,
            Action::CompleteSuit { pos, suit, discover } => {
                let pile = b.piles[pos as int];
                &&& pos < 10
                &&& pile.len() >= 13
                &&& pile.skip(pile.len() - 13) == full_suit(suit)
                &&& b.hidden[pos as int] <= pile.len() - 13
                &&& discover == uncovers(pile.len() - 13, b.hidden[pos as int])
            },
        }
    }

    /// The table after the action.
    pub open spec fn apply(self, b: Board) -> Board {
        match self {
            Action::Move { source, source_i, target, target_i, discover } => Board {
                piles: b.piles.update(
                    source as int,
                    b.piles[source as int].take(source_i as int),
                ).update(
                    target as int,
                    b.piles[target as int] + b.piles[source as int].skip(source_i as int),
                ),
                hidden: b.hidden.update(source as int, turned(b.hidden[source as int], discover)),
                ..b
            },
            Action::Stack => Board {
                piles: Seq::new(10, |p: int| b.piles[p].push(b.stack[b.stack.len() - 1 - p])),
                stack: b.stack.take(b.stack.len() - 10),
                ..b
            },
            Action::CompleteSuit { pos, suit, discover } => Board {
                piles: b.piles.update(
                    pos as int,
                    b.piles[pos as int].take(b.piles[pos as int].len() - 13),
                ),
                hidden: b.hidden.update(pos as int, turned(b.hidden[pos as int], discover)),
                completed: b.completed + 1,
                ..b
            },
        }
    }

    /// `b` is a table as the action leaves it: the action can be taken back.
    pub open spec fn made(self, b: Board) -> bool {
        match self {
            Action::Move { source, source_i, target, target_i, discover } => {
                &&& source < 10
                &&& target < 10
                &&& source != target
                &&& source_i == b.piles[source as int].len()
                &&& target_i < b.piles[target as int].len()
                &&& b.hidden[target as int] < target_i || b.hidden[target as int] == 0
                &&& discover ==> b.hidden[source as int] + 1 == source_i
            },
            Action::Stack => forall|p: int|
                0 <= p < 10 ==> (#[trigger] b.piles[p]).len() >= 1 && (b.hidden[p] < b.piles[p].len()
                    - 1 || b.hidden[p] == 0),
            Action::CompleteSuit { pos, suit, discover } => {
                &&& pos < 10
                &&& b.completed >= 1
                &&& discover ==> b.hidden[pos as int] + 1 == b.piles[pos as int].len()
            },
        }
    }

    /// The table before the action, given the table after it.
    pub open spec fn revert(self, b: Board) -> Board {
        match self {
            Action::Move { source, source_i, target, target_i, discover } => Board {
                piles: b.piles.update(
                    target as int,
                    b.piles[target as int].take(target_i as int),
                ).update(
                    source as int,
                    b.piles[source as int] + b.piles[target as int].skip(target_i as int),
                ),
                hidden: b.hidden.update(source as int, covered(b.hidden[source as int], discover)),
                ..b
            },
            Action::Stack => Board {
                piles: Seq::new(10, |p: int| b.piles[p].drop_last()),
                stack: b.stack + Seq::new(10, |k: int| b.piles[9 - k].last()),
                ..b
            },
            Action::CompleteSuit { pos, suit, discover } => Board {
                piles: b.piles.update(pos as int, b.piles[pos as int] + full_suit(suit)),
                hidden: b.hidden.update(pos as int, covered(b.hidden[pos as int], discover)),
                completed: b.completed - 1,
                ..b
            },
        }
    }

    /// Undoing an action that was just carried out gives the table back as
    /// it was: piles, hidden counts, reserve and completed count.
    pub proof fn lemma_revert_apply(self, b: Board)
        requires
            b.wf(),
            self.applies_to(b),
        ensures
            self.apply(b).wf(),
            self.made(self.apply(b)),
            self.revert(self.apply(b)) == b,
    {
        let after = self.apply(b);
        let back = self.revert(after);
        match self {
            Action::Move { source, source_i, target, target_i, discover } => {
                let s = source as int;
                let t = target as int;
                assert(back.piles[s] =~= b.piles[s]);
                assert(back.piles[t] =~= b.piles[t]);
                assert(back.piles =~= b.piles);
                assert(back.hidden =~= b.hidden);
            },
            Action::Stack => {
                assert forall|p: int| 0 <= p < 10 implies back.piles[p] == b.piles[p] by {
                    assert(after.piles[p].drop_last() =~= b.piles[p]);
                }
                assert(back.piles =~= b.piles);
                assert(back.stack =~= b.stack);
            },
            Action::CompleteSuit { pos, suit, discover } => {
                let p = pos as int;
                assert(back.piles[p] =~= b.piles[p]);
                assert(back.piles =~= b.piles);
                assert(back.hidden =~= b.hidden);
            },
        }
    }

    /// Carrying out again an action that was just undone gives the table back
    /// as it was before the undo.
    pub proof fn lemma_apply_revert(self, b: Board)
        requires
            b.wf(),
            self.made(b),
        ensures
            self.revert(b).wf(),
            self.applies_to(self.revert(b)),
            self.apply(self.revert(b)) == b,
    {
        let before = self.revert(b);
        let again = self.apply(before);
        match self {
            Action::Move { source, source_i, target, target_i, discover } => {
                let s = source as int;
                let t = target as int;
                assert(again.piles[s] =~= b.piles[s]);
                assert(again.piles[t] =~= b.piles[t]);
                assert(again.piles =~= b.piles);
                assert(again.hidden =~= b.hidden);
            },
            Action::Stack => {
                assert forall|p: int| 0 <= p < 10 implies again.piles[p] == b.piles[p] by {
                    assert(before.stack[before.stack.len() - 1 - p] == b.piles[p].last());
                    assert(b.piles[p].drop_last().push(b.piles[p].last()) =~= b.piles[p]);
                }
                assert(again.piles =~= b.piles);
                assert(again.stack =~= b.stack);
            },
            Action::CompleteSuit { pos, suit, discover } => {
                let p = pos as int;
                assert(again.piles[p] =~= b.piles[p]);
                assert(again.piles =~= b.piles);
                assert(again.hidden =~= b.hidden);
                assert(before.piles[p].skip(before.piles[p].len() - 13) =~= full_suit(suit));
            },
        }
    }
}

} // verus!
