//! The mathematical model of the table: ten piles, their hidden counts, the
//! reserve and the count of completed suits, with the predicate that tells
//! which cards form a run.

use crate::card::{Card, Face, Suit};
use vstd::prelude::*;

verus! {

/// The number of completed suits that wins the game.
pub const SUITS_TO_WIN: usize = 8;

/// The table as plain values. Index 0 of a pile is its bottom, the last index
/// its top; the reserve is dealt from its end.
pub struct Board {
    pub piles: Seq<Seq<Card>>,
    pub hidden: Seq<int>,
    pub stack: Seq<Card>,
    pub completed: int,
}

/// The card at `j` carries the one above it: one face lower, same suit.
pub open spec fn steps_down(pile: Seq<Card>, j: int) -> bool {
    pile[j].face.carries(pile[j + 1].face) && pile[j].suit == pile[j + 1].suit
}

/// From `index` to the top, each card carries the next.
pub open spec fn is_run(pile: Seq<Card>, index: int) -> bool {
    forall|j: int| index <= j && j + 1 < pile.len() ==> #[trigger] steps_down(pile, j)
}

/// The thirteen cards of one suit, king first.
pub open spec fn full_suit(suit: Suit) -> Seq<Card> {
    Seq::new(13, |k: int| Card { face: Face::below_king(k), suit })
}

/// Whether a pile that is left with `len` cards, `hidden` of them face down,
/// turns its top card over.
pub open spec fn uncovers(len: int, hidden: int) -> bool {
    hidden == len && hidden > 0
}

/// The highest position below `end` that holds a card of the given face, or -1.
pub open spec fn topmost_of(pile: Seq<Card>, face: Face, end: int) -> int
    decreases end,
{
    if end <= 0 {
        -1
    } else if pile[end - 1].face == face {
        end - 1
    } else {
        topmost_of(pile, face, end - 1)
    }
}

impl Board {
    /// Ten piles, ten hidden counts; in a pile that holds cards the top card
    /// is face up, and an empty pile hides nothing; the reserve holds whole
    /// deals.
    pub open spec fn wf(self) -> bool {
        &&& self.piles.len() == 10
        &&& self.hidden.len() == 10
        &&& forall|p: int|
            0 <= p < 10 ==> 0 <= #[trigger] self.hidden[p] <= self.piles[p].len() && (
            self.hidden[p] < self.piles[p].len() || self.hidden[p] == 0)
        &&& self.stack.len() % 10 == 0
        &&& self.completed >= 0
    }

    /// Every pile is short enough for its length to be a `usize`, as the
    /// piles of every game in memory are.
    pub open spec fn storable(self) -> bool {
        forall|p: int| 0 <= p < 10 ==> (#[trigger] self.piles[p]).len() <= usize::MAX
    }

    /// The cards of `pile` from `index` up are face up and form a run.
    pub open spec fn is_sequence(self, pile: int, index: int) -> bool {
        self.hidden[pile] <= index && is_run(self.piles[pile], index)
    }

    /// The top thirteen cards of `pile` are a complete suit, face up.
    pub open spec fn has_full_suit(self, pile: int) -> bool {
        self.piles[pile].len() >= 13 && self.is_sequence(pile, self.piles[pile].len() - 13)
    }
}

/// Along a run the height falls by one with each card.
pub proof fn lemma_run_heights(pile: Seq<Card>, index: int, j: int)
    requires
        is_run(pile, index),
        0 <= index <= j < pile.len(),
    ensures
        pile[j].face.height() == pile[index].face.height() - (j - index),
        pile[j].suit == pile[index].suit,
    decreases j - index,
{
    if j > index {
        lemma_run_heights(pile, index, j - 1);
        assert(steps_down(pile, j - 1));
    }
}

/// A run of thirteen cards is a whole suit from king to ace.
pub proof fn lemma_run_is_full_suit(pile: Seq<Card>)
    requires
        pile.len() >= 13,
        is_run(pile, pile.len() - 13),
    ensures
        pile.skip(pile.len() - 13) == full_suit(pile.last().suit),
{
    let start = pile.len() - 13;
    let top = pile.skip(start);
    let full = full_suit(pile.last().suit);
    lemma_run_heights(pile, start, pile.len() - 1);
    pile[start].face.lemma_lower_is_one_step(Face::Ace);
    pile.last().face.lemma_lower_is_one_step(Face::Ace);
    assert(pile[start].face.height() == 12);
    assert forall|k: int| 0 <= k < 13 implies top[k] == full[k] by {
        lemma_run_heights(pile, start, start + k);
        pile[start + k].face.lemma_lower_is_one_step(Face::Ace);
        assert(pile[start + k].face == Face::below_king(k));
    }
    assert(top =~= full);
}

/// A whole suit from king to ace on top of a pile is a run of thirteen cards.
pub proof fn lemma_full_suit_is_run(pile: Seq<Card>, suit: Suit)
    requires
        pile.len() >= 13,
        pile.skip(pile.len() - 13) == full_suit(suit),
    ensures
        is_run(pile, pile.len() - 13),
        pile.last().suit == suit,
{
    let start = pile.len() - 13;
    let top = pile.skip(start);
    assert(pile.last() == top[12]);
    assert forall|j: int| start <= j && j + 1 < pile.len() implies #[trigger] steps_down(
        pile,
        j,
    ) by {
        assert(pile[j] == top[j - start]);
        assert(pile[j + 1] == top[j + 1 - start]);
    }
}

/// The top card of a pile that holds cards is always a sequence by itself,
/// and no sequence starts at the last hidden card.
pub proof fn lemma_sequence_bounds(b: Board, pile: int)
    requires
        b.wf(),
        0 <= pile < 10,
    ensures
        b.piles[pile].len() > 0 ==> b.is_sequence(pile, b.piles[pile].len() - 1),
        b.hidden[pile] > 0 ==> !b.is_sequence(pile, b.hidden[pile] - 1),
{
}

/// What `topmost_of` finds holds the face, nothing above it does, and it
/// finds nothing only where no card below `end` holds the face.
pub proof fn lemma_topmost_of(pile: Seq<Card>, face: Face, end: int)
    requires
        0 <= end <= pile.len(),
    ensures
        -1 <= topmost_of(pile, face, end) < end,
        topmost_of(pile, face, end) >= 0 ==> pile[topmost_of(pile, face, end)].face == face,
        forall|j: int| topmost_of(pile, face, end) < j < end ==> (#[trigger] pile[j]).face != face,
    decreases end,
{
    if end > 0 && pile[end - 1].face != face {
        lemma_topmost_of(pile, face, end - 1);
    }
}

} // verus!
