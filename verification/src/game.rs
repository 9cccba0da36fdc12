//! The game state that runs: piles and reserve as vectors, the hidden counts,
//! and the action log. Its view is the mathematical game.

use crate::action::{turned, Action};
use crate::card::{Card, Face, Suit};
use crate::log::Game;
use crate::tableau::{full_suit, steps_down, uncovers, Board, SUITS_TO_WIN};
use vstd::prelude::*;

verus! {

/// A game of Spider: the table and the log of what was done to it.
#[derive(Clone, Debug, PartialEq, Eq)]
pub struct GameState {
    /// The reserve; it is dealt from its end.
    pub stack: Vec<Card>,
    /// The ten piles, each from bottom to top.
    pub piles: [Vec<Card>; 10],
    /// For each pile, how many cards from its bottom are face down.
    pub hidden: [usize; 10],
    /// How many complete suits have left the table.
    pub completed: usize,
    /// The actions recorded so far.
    pub history: Vec<Action>,
    /// How many of them are done; the rest are undone and can be redone.
    pub history_head: usize,
}

impl View for GameState {
    type V = Game;

    open spec fn view(&self) -> Game {
        Game { board: self.board(), history: self.history@, head: self.history_head as int }
    }
}

impl GameState {
    /// The table as plain values.
    pub open spec fn board(&self) -> Board {
        Board {
            piles: Seq::new(10, |p: int| self.piles[p]@),
            hidden: Seq::new(10, |p: int| self.hidden[p] as int),
            stack: self.stack@,
            completed: self.completed as int,
        }
    }

    /// The state's view is a well-formed game.
    pub open spec fn wf(&self) -> bool {
        self@.wf()
    }

    /// Records `action` at the cursor and drops what lay beyond it. The table
    /// is not touched.
    pub fn write(&mut self, action: Action)
        requires
            old(self).history_head <= old(self).history.len(),
        ensures
            final(self)@ == old(self)@.write(action),
    {
        self.history.truncate(self.history_head);
        self.history.push(action);
        assert(self.history@.len() == self.history_head + 1);
        assert(self.history.len() <= usize::MAX);
        self.history_head += 1;
    }

    /// Turns the top card of `pile` over if it is the last hidden one, and
    /// tells whether it did.
    pub fn discover(&mut self, pile: usize) -> (found: bool)
        requires
            pile < 10,
        ensures
            found == uncovers(old(self).piles[pile as int]@.len() as int, old(self).hidden[pile as int] as int),
            final(self)@ == (Game {
                board: Board {
                    hidden: old(self).board().hidden.update(
                        pile as int,
                        turned(old(self).hidden[pile as int] as int, found),
                    ),
                    ..old(self).board()
                },
                ..old(self)@
            }),
    {
        if self.hidden[pile] == self.piles[pile].len() && self.hidden[pile] > 0 {
            self.hidden[pile] -= 1;
            assert(self.board().hidden =~= old(self).board().hidden.update(
                pile as int,
                old(self).hidden[pile as int] - 1,
            ));
            assert(self.board().piles =~= old(self).board().piles);
            true
        } else {
            assert(self.board().hidden =~= old(self).board().hidden.update(
                pile as int,
                old(self).hidden[pile as int] as int,
            ));
            false
        }
    }

    /// Whether the card at `index` of `pile` lies face down.
    pub fn is_hidden(&self, pile: usize, index: usize) -> (hidden: bool)
        requires
            pile < 10,
        ensures
            hidden == (self.board().hidden[pile as int] > index),
    {
        self.hidden[pile] > index
    }

    /// How many cards the reserve still holds.
    pub fn reserve_len(&self) -> (len: usize)
        ensures
            len == self.board().stack.len(),
    {
        self.stack.len()
    }

    /// Whether as many suits are completed as win the game.
    pub fn is_won(&self) -> (won: bool)
        ensures
            won == (self.board().completed >= SUITS_TO_WIN),
    {
        self.completed >= SUITS_TO_WIN
    }

    /// Whether the cards of `pile` from `index` up are face up and form a
    /// run. The top card alone is a run.
    pub fn is_sequence(&self, pile: usize, index: usize) -> (ok: bool)
        requires
            pile < 10,
            index < self.piles[pile as int]@.len(),
        ensures
            ok == self.board().is_sequence(pile as int, index as int),
    {
        if self.hidden[pile] > index {
            return false;
        }
        let cards = &self.piles[pile];
        let n: usize = cards.len();
        let mut j: usize = index;
        while j + 1 < n
            invariant
                pile < 10,
                n == cards@.len(),
                cards@ == self.piles[pile as int]@,
                self.hidden[pile as int] <= index,
                index <= j < cards@.len(),
                forall|k: int| index <= k < j ==> #[trigger] steps_down(cards@, k),
            decreases cards@.len() - j,
        {
            let pred = cards[j];
            let succ = cards[j + 1];
            let step = match pred.face.succ() {
                None => false,
                Some(face) => face == succ.face && pred.suit == succ.suit,
            };
            proof {
                pred.face.lemma_lower_is_one_step(succ.face);
            }
            if !step {
                assert(!steps_down(cards@, j as int));
                return false;
            }
            j += 1;
        }
        true
    }
}

/// Where the cards of pile `p` begin in a fresh deck: after the fifty cards
/// of the reserve, six piles of five cards and then four of six.
pub open spec fn pile_start(p: int) -> int {
    if p < 6 {
        50 + 5 * p
    } else {
        80 + 6 * (p - 6)
    }
}

/// The table as a fresh deck is laid out: the first fifty cards are the
/// reserve, the piles follow one after another, the last pile takes what is
/// left, and the first four or five cards of each pile are hidden.
pub open spec fn dealt(deck: Seq<Card>) -> Board {
    Board {
        piles: Seq::new(
            10,
            |p: int|
                deck.subrange(
                    pile_start(p),
                    if p == 9 {
                        deck.len() as int
                    } else {
                        pile_start(p + 1)
                    },
                ),
        ),
        hidden: Seq::new(
            10,
            |p: int|
                if p < 6 {
                    4int
                } else {
                    5int
                },
        ),
        stack: deck.take(50),
        completed: 0,
    }
}

/// The cards of `deck` from `from` up to, not including, `to`.
fn copy_cards(deck: &Vec<Card>, from: usize, to: usize) -> (cards: Vec<Card>)
    requires
        from <= to <= deck@.len(),
    ensures
        cards@ == deck@.subrange(from as int, to as int),
{
    let mut cards: Vec<Card> = Vec::new();
    let mut i: usize = from;
    while i < to
        invariant
            from <= i <= to <= deck@.len(),
            cards@ == deck@.subrange(from as int, i as int),
        decreases to - i,
    {
        cards.push(deck[i]);
        assert(cards@ =~= deck@.subrange(from as int, i + 1));
        i += 1;
    }
    cards
}

/// Lays out a fresh deck of at least 104 cards. Nothing is recorded yet.
pub fn init_game(deck: Vec<Card>) -> (game: GameState)
    requires
        deck@.len() >= 104,
    ensures
        game@ == (Game { board: dealt(deck@), history: Seq::empty(), head: 0 }),
        game.wf(),
{
    let game = GameState {
        stack: copy_cards(&deck, 0, 50),
        piles: [
            copy_cards(&deck, 50, 55),
            copy_cards(&deck, 55, 60),
            copy_cards(&deck, 60, 65),
            copy_cards(&deck, 65, 70),
            copy_cards(&deck, 70, 75),
            copy_cards(&deck, 75, 80),
            copy_cards(&deck, 80, 86),
            copy_cards(&deck, 86, 92),
            copy_cards(&deck, 92, 98),
            copy_cards(&deck, 98, deck.len()),
        ],
        hidden: [4, 4, 4, 4, 4, 4, 5, 5, 5, 5],
        completed: 0,
        history: Vec::with_capacity(50),
        history_head: 0,
    };
    assert(game.board().piles =~= dealt(deck@).piles);
    assert(game.board().hidden =~= dealt(deck@).hidden);
    game
}

/// The table that holds the given reserve, piles and hidden counts, with no
/// suit completed.
pub open spec fn laid_out(stack: Vec<Card>, piles: [Vec<Card>; 10], hidden: [usize; 10]) -> Board {
    Board {
        piles: Seq::new(10, |p: int| piles[p]@),
        hidden: Seq::new(10, |p: int| hidden[p] as int),
        stack: stack@,
        completed: 0,
    }
}

/// Sets up a game on a given table, with nothing completed and nothing
/// recorded, if the table is well formed: in each pile that holds cards the
/// top card is face up, an empty pile hides nothing, and the reserve holds
/// whole rows of ten.
pub fn from_table(stack: Vec<Card>, piles: [Vec<Card>; 10], hidden: [usize; 10]) -> (made: Option<
    GameState,
>)
    ensures
        made is Some <==> laid_out(stack, piles, hidden).wf(),
        made matches Some(game) ==> game.wf() && game@ == (Game {
            board: laid_out(stack, piles, hidden),
            history: Seq::empty(),
            head: 0,
        }),
{
    let game = GameState {
        stack,
        piles,
        hidden,
        completed: 0,
        history: Vec::new(),
        history_head: 0,
    };
    assert(game.board() == laid_out(stack, piles, hidden));
    if game.stack.len() % 10 != 0 {
        return None;
    }
    let mut p: usize = 0;
    while p < 10
        invariant
            p <= 10,
            game.board() == laid_out(stack, piles, hidden),
            forall|q: int|
                0 <= q < p ==> (#[trigger] game.hidden[q]) < game.piles[q]@.len() || (
                game.hidden[q] == 0 && game.piles[q]@.len() == 0),
        decreases 10 - p,
    {
        let len: usize = game.piles[p].len();
        if !(game.hidden[p] < len || (game.hidden[p] == 0 && len == 0)) {
            assert(game.board().hidden[p as int] == game.hidden[p as int]);
            assert(game.board().piles[p as int] == game.piles[p as int]@);
            return None;
        }
        p += 1;
    }
    assert forall|q: int| 0 <= q < 10 implies 0 <= #[trigger] game.board().hidden[q]
        <= game.board().piles[q].len() && (game.board().hidden[q] < game.board().piles[q].len()
        || game.board().hidden[q] == 0) by {
        assert(game.hidden[q] < game.piles[q]@.len() || (game.hidden[q] == 0
            && game.piles[q]@.len() == 0));
    }
    Some(game)
}

/// Moves the cards of `source` from `index` up onto `target`, in their order.
pub(crate) fn shift_cards(game: &mut GameState, source: usize, index: usize, target: usize)
    requires
        source < 10,
        target < 10,
        source != target,
        index <= old(game).piles[source as int]@.len(),
    ensures
        final(game)@ == (Game {
            board: Board {
                piles: old(game).board().piles.update(
                    source as int,
                    old(game).board().piles[source as int].take(index as int),
                ).update(
                    target as int,
                    old(game).board().piles[target as int] + old(game).board().piles[source as int].skip(
                        index as int,
                    ),
                ),
                ..old(game).board()
            },
            ..old(game)@
        }),
{
    let mut cards = game.piles[source].split_off(index);
    game.piles[target].append(&mut cards);
    assert(game.board().piles =~= old(game).board().piles.update(
        source as int,
        old(game).board().piles[source as int].take(index as int),
    ).update(
        target as int,
        old(game).board().piles[target as int] + old(game).board().piles[source as int].skip(
            index as int,
        ),
    ));
    assert(game.board().hidden =~= old(game).board().hidden);
}

/// Deals one card from the end of the reserve onto each pile, pile 0 first.
pub(crate) fn deal_row(game: &mut GameState)
    requires
        old(game).stack@.len() >= 10,
    ensures
        final(game)@ == (Game { board: Action::Stack.apply(old(game).board()), ..old(game)@ }),
{
    let ghost before = game.board();
    let mut p: usize = 0;
    while p < 10
        invariant
            p <= 10,
            before.stack.len() >= 10,
            before.piles.len() == 10,
            game.stack@ == before.stack.take(before.stack.len() - p),
            forall|q: int| 0 <= q < p ==> #[trigger] game.piles[q]@ == before.piles[q].push(before.stack[before.stack.len() - 1 - q]),
            forall|q: int| p <= q < 10 ==> #[trigger] game.piles[q]@ == before.piles[q],
            game.board().hidden == before.hidden,
            game.completed == before.completed,
            game.history == old(game).history,
            game.history_head == old(game).history_head,
        decreases 10 - p,
    {
        let card = game.stack.pop();
        match card {
            Some(c) => {
                game.piles[p].push(c);
            },
            None => {},
        }
        assert(game.board().hidden =~= before.hidden);
        p += 1;
    }
    assert(game.board().piles =~= Action::Stack.apply(before).piles);
}

/// Takes the top card of each pile back onto the reserve, pile 9 first.
fn gather_row(game: &mut GameState)
    requires
        forall|p: int| 0 <= p < 10 ==> (#[trigger] old(game).board().piles[p]).len() >= 1,
    ensures
        final(game)@ == (Game { board: Action::Stack.revert(old(game).board()), ..old(game)@ }),
{
    let ghost before = game.board();
    let mut p: usize = 10;
    while p > 0
        invariant
            p <= 10,
            before.piles.len() == 10,
            forall|q: int| 0 <= q < 10 ==> (#[trigger] before.piles[q]).len() >= 1,
            game.stack@ == before.stack + Seq::new((10 - p) as nat, |k: int| before.piles[9 - k].last()),
            forall|q: int| p <= q < 10 ==> #[trigger] game.piles[q]@ == before.piles[q].drop_last(),
            forall|q: int| 0 <= q < p ==> #[trigger] game.piles[q]@ == before.piles[q],
            game.board().hidden == before.hidden,
            game.completed == before.completed,
            game.history == old(game).history,
            game.history_head == old(game).history_head,
        decreases p,
    {
        p -= 1;
        let ghost stack_before = game.stack@;
        let card = game.piles[p].pop();
        match card {
            Some(c) => {
                game.stack.push(c);
            },
            None => {},
        }
        assert(game.board().hidden =~= before.hidden);
        assert(game.stack@ =~= before.stack + Seq::new(
            (10 - p) as nat,
            |k: int| before.piles[9 - k].last(),
        ));
    }
    assert(game.board().piles =~= Action::Stack.revert(before).piles);
}

/// Puts the thirteen cards of `suit` onto the pile `pos`, king first.
fn lay_suit(game: &mut GameState, pos: usize, suit: Suit)
    requires
        pos < 10,
    ensures
        final(game)@ == (Game {
            board: Board {
                piles: old(game).board().piles.update(
                    pos as int,
                    old(game).board().piles[pos as int] + full_suit(suit),
                ),
                ..old(game).board()
            },
            ..old(game)@
        }),
{
    let ghost before = game.board();
    let faces = Face::all();
    let mut k: usize = 0;
    while k < 13
        invariant
            k <= 13,
            pos < 10,
            forall|i: int| 0 <= i < 13 ==> #[trigger] faces[i] == Face::below_king(i),
            game.piles[pos as int]@ == before.piles[pos as int] + full_suit(suit).take(k as int),
            forall|q: int| 0 <= q < 10 && q != pos ==> #[trigger] game.piles[q]@ == before.piles[q],
            before.piles.len() == 10,
            game.board().hidden == before.hidden,
            game.stack@ == before.stack,
            game.completed == before.completed,
            game.history == old(game).history,
            game.history_head == old(game).history_head,
        decreases 13 - k,
    {
        let face = faces[k];
        game.piles[pos].push(Card { suit, face });
        assert(game.piles[pos as int]@ =~= before.piles[pos as int] + full_suit(suit).take(
            k + 1,
        ));
        assert(game.board().hidden =~= before.hidden);
        k += 1;
    }
    assert(full_suit(suit).take(13) =~= full_suit(suit));
    assert(game.board().piles =~= before.piles.update(
        pos as int,
        before.piles[pos as int] + full_suit(suit),
    ));
}

/// Takes back `action`, which the table must be the result of: the cards go
/// back where they came from, a card that the action turned over is hidden
/// again, and a completed suit is counted out. The log is not touched.
pub fn undo_action(game: &mut GameState, action: Action)
    requires
        old(game).board().wf(),
        action.made(old(game).board()),
    ensures
        final(game)@ == (Game { board: action.revert(old(game).board()), ..old(game)@ }),
        final(game).board().wf(),
        action.applies_to(final(game).board()),
{
    proof {
        action.lemma_apply_revert(game.board());
    }
    match action {
        Action::Stack => {
            gather_row(game);
        },
        Action::CompleteSuit { pos, suit, discover } => {
            lay_suit(game, pos, suit);
            game.completed -= 1;
            assert(game.hidden[pos as int] == old(game).board().hidden[pos as int]);
            assert(old(game).board().piles[pos as int].len() == old(game).piles[pos as int].len());
            if discover {
                game.hidden[pos] += 1;
            }
            assert(game.board().hidden =~= action.revert(old(game).board()).hidden);
            assert(game.board().piles =~= action.revert(old(game).board()).piles);
        },
        Action::Move { source, source_i, target, target_i, discover } => {
            shift_cards(game, target, target_i, source);
            if discover {
                game.hidden[source] += 1;
            }
            assert(game.board().hidden =~= action.revert(old(game).board()).hidden);
            assert(game.board().piles =~= action.revert(old(game).board()).piles);
        },
    }
}

/// Carries out `action` as recorded, without testing the rules again: the
/// cards move, a card that the action turned over is turned over, and a
/// completed suit is counted. The log is not touched.
pub fn redo_action(game: &mut GameState, action: Action)
    requires
        old(game).board().wf(),
        action.applies_to(old(game).board()),
        action is CompleteSuit ==> old(game).completed < usize::MAX,
    ensures
        final(game)@ == (Game { board: action.apply(old(game).board()), ..old(game)@ }),
        final(game).board().wf(),
        action.made(final(game).board()),
{
    proof {
        action.lemma_revert_apply(game.board());
    }
    match action {
        Action::Stack => {
            deal_row(game);
        },
        Action::CompleteSuit { pos, suit, discover } => {
            let i: usize = game.piles[pos].len() - 13;
            game.piles[pos].truncate(i);
            game.completed += 1;
            if discover {
                game.hidden[pos] -= 1;
            }
            assert(game.board().hidden =~= action.apply(old(game).board()).hidden);
            assert(game.board().piles =~= action.apply(old(game).board()).piles);
        },
        Action::Move { source, source_i, target, target_i, discover } => {
            shift_cards(game, source, source_i, target);
            if discover {
                game.hidden[source] -= 1;
            }
            assert(game.board().hidden =~= action.apply(old(game).board()).hidden);
            assert(game.board().piles =~= action.apply(old(game).board()).piles);
        },
    }
}

} // verus!
