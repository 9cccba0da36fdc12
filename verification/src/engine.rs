//! The rules of play: which commands are legal, what each does to the game,
//! and what it reports.

use crate::action::Action;
use crate::card::{Card, Face, Suit};
use crate::game::{deal_row, redo_action, shift_cards, undo_action, GameState};
use crate::log::Game;
use crate::tableau::{
    full_suit, is_run, lemma_full_suit_is_run, lemma_run_heights, lemma_run_is_full_suit,
    lemma_topmost_of, topmost_of, uncovers, Board, SUITS_TO_WIN,
};
use vstd::prelude::*;

verus! {

/// The list of commands.
pub const HELP_TEXT: &'static str = "H: print this again
Q: quit
U/z: undo
R/y: redo
r: restart (max undo)

S/s: push from stack
Cn: complete nth pile suit
Mxyz: move card of xth pile at index y to zth pile
c: smart complete all finished suits
mxz: smart move from xth pile to zth pile
";

/// A command.
#[derive(Clone, Copy, Debug, PartialEq, Eq, Structural)]
pub enum Input {
    NewGame,
    Quit,
    /// Move the cards of `source` from `index` up onto `target`.
    Move { source: usize, index: usize, target: usize },
    /// Deal one card from the reserve onto each pile.
    Stack,
    /// Take the complete suit off the pile `pos`.
    CompleteSuit { pos: usize },
    Undo,
    Redo,
    Help,
    /// Move from `source` onto `target`, wherever the cards that fit begin.
    SmartMove { source: usize, target: usize },
    /// Take every complete suit off the table.
    SmartComp,
    /// Undo everything.
    Restart,
}

/// What a command came to.
#[derive(Clone, Copy, Debug, PartialEq, Eq, Structural)]
pub enum Outcome {
    /// Carried out, with nothing to report.
    Applied,
    /// Carried out, and with it the last suit was completed.
    Won,
    /// A new game was asked for; the game is left as it is.
    NewGame,
    /// The player wants to leave; the game is left as it is.
    Quit,
    /// The player asked for the list of commands.
    Help,
    NothingToUndo,
    NothingToRedo,
    /// The cards named are not a face-up run.
    NotInSequence,
    /// The target's top card is an ace, which carries nothing.
    CantMoveOntoAce,
    /// The card to move is not one step below the target's top card.
    SourceNotSuccessor,
    /// The reserve cannot serve a deal.
    StackExhausted,
    /// The source pile is empty.
    NoCardsToMove,
    /// More than one run could go onto the empty target.
    MultipleMoves,
    /// No card of the source fits the target, or the one that fits does not
    /// start a run.
    NoValidMove,
}

impl Outcome {
    /// What to tell the player; nothing where the command was simply carried out.
    pub open spec fn text(self) -> Seq<char> {
        match self {
            Outcome::Applied => ""@,
            Outcome::Won => "You win!"@,
            Outcome::NewGame => "New Game...\nUndoing..."@,
            Outcome::Quit => "Bye!"@,
            Outcome::Help => HELP_TEXT@,
            Outcome::NothingToUndo => "Nothing to undo"@,
            Outcome::NothingToRedo => "Nothing to redo"@,
            Outcome::NotInSequence => "Not in sequence"@,
            Outcome::CantMoveOntoAce => "can't move onto ace"@,
            Outcome::SourceNotSuccessor => "source not succ of target"@,
            Outcome::StackExhausted => "Stack exhausted"@,
            Outcome::NoCardsToMove => "No cards to move"@,
            Outcome::MultipleMoves => "Multiple moves possible; use Mxyz notation"@,
            Outcome::NoValidMove => "No valid move found"@,
        }
    }

    pub fn message(&self) -> (text: &'static str)
        ensures
            text@ == self.text(),
    {
        match self {
            Outcome::Applied => "",
            Outcome::Won => "You win!",
            Outcome::NewGame => "New Game...\nUndoing...",
            Outcome::Quit => "Bye!",
            Outcome::Help => HELP_TEXT,
            Outcome::NothingToUndo => "Nothing to undo",
            Outcome::NothingToRedo => "Nothing to redo",
            Outcome::NotInSequence => "Not in sequence",
            Outcome::CantMoveOntoAce => "can't move onto ace",
            Outcome::SourceNotSuccessor => "source not succ of target",
            Outcome::StackExhausted => "Stack exhausted",
            Outcome::NoCardsToMove => "No cards to move",
            Outcome::MultipleMoves => "Multiple moves possible; use Mxyz notation",
            Outcome::NoValidMove => "No valid move found",
        }
    }

    /// Whether the command changed nothing because the rules refused it.
    pub open spec fn is_rejection(self) -> bool {
        !(self == Outcome::Applied || self == Outcome::Won || self == Outcome::NewGame || self
            == Outcome::Quit || self == Outcome::Help)
    }
}

/// The count of completed suits went from below the winning count to it.
pub open spec fn wins(before: int, after: int) -> bool {
    before < SUITS_TO_WIN <= after
}

/// The record of moving the cards of `source` from `index` up onto `target`.
pub open spec fn move_action(b: Board, source: usize, index: usize, target: usize) -> Action {
    Action::Move {
        source,
        source_i: index,
        target,
        target_i: b.piles[target as int].len() as usize,
        discover: uncovers(index as int, b.hidden[source as int]),
    }
}

/// The record of taking the top thirteen cards off the pile `pos`.
pub open spec fn complete_action(b: Board, pos: usize) -> Action {
    Action::CompleteSuit {
        pos,
        suit: b.piles[pos as int].last().suit,
        discover: uncovers(b.piles[pos as int].len() - 13, b.hidden[pos as int]),
    }
}

/// What the rules say of moving the cards of `source` from `index` up onto
/// `target`: the cards must be a face-up run, and the target empty or topped
/// by the face one step above the run's first card, in whatever suit.
pub open spec fn move_verdict(b: Board, source: int, index: int, target: int) -> Outcome {
    if !b.is_sequence(source, index) {
        Outcome::NotInSequence
    } else if b.piles[target].len() == 0 {
        Outcome::Applied
    } else {
        match b.piles[target].last().face.lower() {
            None => Outcome::CantMoveOntoAce,
            Some(face) => if face == b.piles[source][index].face {
                Outcome::Applied
            } else {
                Outcome::SourceNotSuccessor
            },
        }
    }
}

/// Where a smart move from `source` onto `target` begins, or why there is none.
/// Onto an empty target only a lone top card goes: one that forms no run with
/// the card below it. Onto a card goes the run that begins at the topmost card
/// one step below it.
pub open spec fn smart_pick(b: Board, source: int, target: int) -> Result<int, Outcome> {
    let pile = b.piles[source];
    if pile.len() == 0 {
        Err(Outcome::NoCardsToMove)
    } else if b.piles[target].len() == 0 {
        if pile.len() == 1 || !b.is_sequence(source, pile.len() - 2) {
            Ok(pile.len() - 1)
        } else {
            Err(Outcome::MultipleMoves)
        }
    } else {
        match b.piles[target].last().face.lower() {
            None => Err(Outcome::CantMoveOntoAce),
            Some(face) => {
                let index = topmost_of(pile, face, pile.len() as int);
                if index >= 0 && b.is_sequence(source, index) {
                    Ok(index)
                } else {
                    Err(Outcome::NoValidMove)
                }
            },
        }
    }
}

/// The game after every pile from `from` on has given up its complete suit,
/// if it has one, in the order of the piles.
pub open spec fn sweep(g: Game, from: int) -> Game
    decreases 10 - from,
{
    if from >= 10 {
        g
    } else if g.board.has_full_suit(from) {
        sweep(g.perform(complete_action(g.board, from as usize)), from + 1)
    } else {
        sweep(g, from + 1)
    }
}

impl Input {
    /// The piles named exist, and so does the position named in a move.
    pub open spec fn fits(self, b: Board) -> bool {
        match self {
            Input::Move { source, index, target } => source < 10 && target < 10 && index
                < b.piles[source as int].len(),
            Input::CompleteSuit { pos } => pos < 10,
            Input::SmartMove { source, target } => source < 10 && target < 10,
            _ => true,
        }
    }
}

/// The game after a command, and what the command came to. A command that
/// the rules refuse leaves the game as it is.
pub open spec fn step(g: Game, input: Input) -> (Game, Outcome) {
    let b = g.board;
    match input {
        Input::NewGame => (g, Outcome::NewGame),
        Input::Quit => (g, Outcome::Quit),
        Input::Help => (g, Outcome::Help),
        Input::Undo => if g.head <= 0 {
            (g, Outcome::NothingToUndo)
        } else {
            (g.undo(), Outcome::Applied)
        },
        Input::Redo => if g.head >= g.history.len() {
            (g, Outcome::NothingToRedo)
        } else {
            (g.redo(), Outcome::Applied)
        },
        Input::Restart => (g.restart(), Outcome::Applied),
        Input::Move { source, index, target } => {
            let verdict = move_verdict(b, source as int, index as int, target as int);
            if verdict == Outcome::Applied {
                (g.perform(move_action(b, source, index, target)), Outcome::Applied)
            } else {
                (g, verdict)
            }
        },
        Input::CompleteSuit { pos } => if b.has_full_suit(pos as int) {
            (
                g.perform(complete_action(b, pos)),
                if wins(b.completed, b.completed + 1) {
                    Outcome::Won
                } else {
                    Outcome::Applied
                },
            )
        } else {
            (g, Outcome::NotInSequence)
        },
        Input::Stack => if b.stack.len() >= 10 {
            (g.perform(Action::Stack), Outcome::Applied)
        } else {
            (g, Outcome::StackExhausted)
        },
        Input::SmartComp => {
            let after = sweep(g, 0);
            (
                after,
                if wins(b.completed, after.board.completed) {
                    Outcome::Won
                } else {
                    Outcome::Applied
                },
            )
        },
        Input::SmartMove { source, target } => match smart_pick(b, source as int, target as int) {
            Ok(index) => (g.perform(move_action(b, source, index as usize, target)), Outcome::Applied),
            Err(why) => (g, why),
        },
    }
}

/// No run can go onto the top of its own pile: the top card is the lowest
/// of the run, and carries none of it.
pub proof fn lemma_no_move_within_pile(b: Board, pile: int, index: int)
    requires
        0 <= index < b.piles[pile].len(),
        b.is_sequence(pile, index),
    ensures
        b.piles[pile].last().face.lower() != Some(b.piles[pile][index].face),
{
    let cards = b.piles[pile];
    lemma_run_heights(cards, index, cards.len() - 1);
    cards.last().face.lemma_lower_is_one_step(cards[index].face);
}

/// The action that a command records when the rules allow it: the commands
/// that move cards, complete one suit or deal record one action, the others
/// none.
pub open spec fn recorded(g: Game, input: Input) -> Option<Action> {
    let b = g.board;
    match input {
        Input::Move { source, index, target } => if move_verdict(
            b,
            source as int,
            index as int,
            target as int,
        ) == Outcome::Applied {
            Some(move_action(b, source, index, target))
        } else {
            None
        },
        Input::CompleteSuit { pos } => if b.has_full_suit(pos as int) {
            Some(complete_action(b, pos))
        } else {
            None
        },
        Input::Stack => if b.stack.len() >= 10 {
            Some(Action::Stack)
        } else {
            None
        },
        Input::SmartMove { source, target } => match smart_pick(b, source as int, target as int) {
            Ok(index) => Some(move_action(b, source, index as usize, target)),
            Err(_) => None,
        },
        _ => None,
    }
}

/// A command that records an action carries out exactly that action, which
/// the table admits; any other command that could record one is refused and
/// leaves the game as it is.
pub proof fn lemma_step_records(g: Game, input: Input)
    requires
        g.wf(),
        g.board.storable(),
        input.fits(g.board),
    ensures
        match recorded(g, input) {
            Some(action) => action.applies_to(g.board) && step(g, input).0 == g.perform(action)
                && !step(g, input).1.is_rejection(),
            None => input is Move || input is CompleteSuit || input is Stack || input is SmartMove
                ==> step(g, input).0 == g && step(g, input).1.is_rejection(),
        },
{
    let b = g.board;
    match input {
        Input::Move { source, index, target } => {
            if source == target && b.is_sequence(source as int, index as int) {
                lemma_no_move_within_pile(b, source as int, index as int);
            }
        },
        Input::CompleteSuit { pos } => {
            if b.has_full_suit(pos as int) {
                lemma_run_is_full_suit(b.piles[pos as int]);
            }
        },
        Input::SmartMove { source, target } => {
            let pile = b.piles[source as int];
            if pile.len() > 0 && b.piles[target as int].len() > 0 {
                match b.piles[target as int].last().face.lower() {
                    None => {},
                    Some(face) => {
                        lemma_topmost_of(pile, face, pile.len() as int);
                        let index = topmost_of(pile, face, pile.len() as int);
                        if source == target && index >= 0 && b.is_sequence(source as int, index) {
                            lemma_no_move_within_pile(b, source as int, index);
                        }
                    },
                }
            }
        },
        _ => {},
    }
}

/// Undo after a command that recorded an action gives back the table as it
/// was before the command: piles, hidden counts, reserve and completed count,
/// and the cursor. Redo after that undo gives the game as the command left it.
pub proof fn lemma_undo_takes_back(g: Game, input: Input)
    requires
        g.wf(),
        g.board.storable(),
        input.fits(g.board),
        recorded(g, input) is Some,
    ensures
        step(g, input).0.wf(),
        step(step(g, input).0, Input::Undo).1 == Outcome::Applied,
        step(step(g, input).0, Input::Undo).0.board == g.board,
        step(step(g, input).0, Input::Undo).0.head == g.head,
        step(step(step(g, input).0, Input::Undo).0, Input::Redo) == (
            step(g, input).0,
            Outcome::Applied,
        ),
{
    let action = recorded(g, input).unwrap();
    lemma_step_records(g, input);
    g.lemma_perform_wf(action);
    g.lemma_undo_inverts_perform(action);
    g.lemma_redo_inverts_undo(action);
}

/// A smart move that finds where to begin does what the explicit move from
/// there does, and that explicit move is legal.
pub proof fn lemma_smart_move_is_explicit(g: Game, source: usize, target: usize)
    requires
        g.wf(),
        source < 10,
        target < 10,
        smart_pick(g.board, source as int, target as int) is Ok,
    ensures
        ({
            let index = smart_pick(g.board, source as int, target as int).unwrap();
            &&& 0 <= index < g.board.piles[source as int].len()
            &&& move_verdict(g.board, source as int, index, target as int) == Outcome::Applied
            &&& index <= usize::MAX ==> step(g, (Input::SmartMove { source, target })) == step(
                g,
                (Input::Move { source, index: index as usize, target }),
            )
        }),
{
    let b = g.board;
    let pile = b.piles[source as int];
    if b.piles[target as int].len() > 0 {
        let face = b.piles[target as int].last().face.lower().unwrap();
        lemma_topmost_of(pile, face, pile.len() as int);
    }
}

/// A deal is refused exactly when the reserve is empty.
pub proof fn lemma_deal_needs_cards(g: Game)
    requires
        g.wf(),
    ensures
        step(g, Input::Stack).1 == Outcome::StackExhausted <==> g.board.stack.len() == 0,
        step(g, Input::Stack).1 == Outcome::Applied <==> g.board.stack.len() > 0,
{
}

/// A suit is taken off a pile exactly when the pile's top thirteen cards are
/// face up and are king, queen, and so on down to the ace of one suit, in that
/// order. Else the command is refused and the game stays as it is.
pub proof fn lemma_complete_is_exact(g: Game, pos: usize)
    requires
        g.wf(),
        pos < 10,
    ensures
        !step(g, (Input::CompleteSuit { pos })).1.is_rejection() <==> {
            let pile = g.board.piles[pos as int];
            &&& pile.len() >= 13
            &&& g.board.hidden[pos as int] <= pile.len() - 13
            &&& exists|suit: Suit| pile.skip(pile.len() - 13) == full_suit(suit)
        },
        step(g, (Input::CompleteSuit { pos })).1.is_rejection() ==> step(
            g,
            (Input::CompleteSuit { pos }),
        ) == (g, Outcome::NotInSequence),
{
    let pile = g.board.piles[pos as int];
    if pile.len() >= 13 {
        if is_run(pile, pile.len() - 13) {
            lemma_run_is_full_suit(pile);
        }
        if exists|suit: Suit| pile.skip(pile.len() - 13) == full_suit(suit) {
            let suit = choose|suit: Suit| pile.skip(pile.len() - 13) == full_suit(suit);
            lemma_full_suit_is_run(pile, suit);
        }
    }
}

/// The game after `n` deals, each one refused or carried out as `step` says.
pub open spec fn deals(g: Game, n: nat) -> Game
    decreases n,
{
    if n == 0 {
        g
    } else {
        step(deals(g, (n - 1) as nat), Input::Stack).0
    }
}

/// After as many deals as the reserve holds rows of ten, the reserve is
/// empty, and one more deal is refused and changes nothing.
pub proof fn lemma_deals_exhaust(g: Game)
    requires
        g.wf(),
    ensures
        deals(g, (g.board.stack.len() / 10) as nat).board.stack.len() == 0,
        step(deals(g, (g.board.stack.len() / 10) as nat), Input::Stack) == (
            deals(g, (g.board.stack.len() / 10) as nat),
            Outcome::StackExhausted,
        ),
{
    lemma_deals_consume(g, (g.board.stack.len() / 10) as nat);
}

/// Each deal that the reserve can serve takes ten cards from it.
pub proof fn lemma_deals_consume(g: Game, n: nat)
    requires
        g.wf(),
        10 * n <= g.board.stack.len(),
    ensures
        deals(g, n).wf(),
        deals(g, n).board.stack.len() == g.board.stack.len() - 10 * n,
    decreases n,
{
    if n > 0 {
        lemma_deals_consume(g, (n - 1) as nat);
        deals(g, (n - 1) as nat).lemma_perform_wf(Action::Stack);
    }
}

/// After an undo, a command that is carried out and recorded leaves nothing
/// to redo: the next redo is refused.
pub proof fn lemma_new_action_ends_redo(g: Game, action: Action)
    requires
        g.wf(),
        action.applies_to(g.undo().board),
    ensures
        step(g.undo().perform(action), Input::Redo) == (
            g.undo().perform(action),
            Outcome::NothingToRedo,
        ),
{
}

/// Moves a run that the rules allow, turns over what it uncovers, and
/// records the move.
fn do_move(game: &mut GameState, source: usize, index: usize, target: usize)
    requires
        old(game).wf(),
        source < 10,
        target < 10,
        source != target,
        old(game).board().hidden[source as int] <= index < old(game).board().piles[source as int].len(),
    ensures
        final(game)@ == old(game)@.perform(move_action(old(game).board(), source, index, target)),
        final(game).wf(),
{
    let ghost action = move_action(game.board(), source, index, target);
    proof {
        assert(game.board().piles[target as int].len() == game.piles[target as int].len());
        game@.lemma_perform_wf(action);
    }
    let target_i: usize = game.piles[target].len();
    shift_cards(game, source, index, target);
    let discover = game.discover(source);
    game.write(Action::Move { source, source_i: index, target, target_i, discover });
    assert(game.board().piles =~= action.apply(old(game).board()).piles);
    assert(game.board().hidden =~= action.apply(old(game).board()).hidden);
}

/// Takes the complete suit off the pile `pos`, counts it, turns over what
/// that uncovers, and records it. Tells whether the game is won with it.
fn do_complete(game: &mut GameState, pos: usize) -> (won: bool)
    requires
        old(game).wf(),
        pos < 10,
        old(game).board().has_full_suit(pos as int),
    ensures
        final(game)@ == old(game)@.perform(complete_action(old(game).board(), pos)),
        final(game).wf(),
        won == wins(old(game).completed as int, old(game).completed + 1),
{
    let ghost action = complete_action(game.board(), pos);
    proof {
        lemma_run_is_full_suit(game.board().piles[pos as int]);
        game@.lemma_perform_wf(action);
        game@.lemma_completed_bound();
    }
    let i: usize = game.piles[pos].len() - 13;
    let suit = game.piles[pos][game.piles[pos].len() - 1].suit;
    game.piles[pos].truncate(i);
    let discover = game.discover(pos);
    game.write(Action::CompleteSuit { pos, suit, discover });
    assert(game.history.len() == old(game).history_head + 1);
    game.completed += 1;
    assert(game.board().piles =~= action.apply(old(game).board()).piles);
    assert(game.board().hidden =~= action.apply(old(game).board()).hidden);
    game.completed == SUITS_TO_WIN
}

/// Takes the complete suit off every pile that has one, pile 0 first, and
/// tells whether the game was won on the way.
fn do_sweep(game: &mut GameState) -> (won: bool)
    requires
        old(game).wf(),
    ensures
        final(game)@ == sweep(old(game)@, 0),
        final(game).wf(),
        won == wins(old(game).completed as int, final(game).completed as int),
{
    let mut won = false;
    let mut pos: usize = 0;
    while pos < 10
        invariant
            pos <= 10,
            game.wf(),
            sweep(game@, pos as int) == sweep(old(game)@, 0),
            old(game).completed <= game.completed,
            won == wins(old(game).completed as int, game.completed as int),
        decreases 10 - pos,
    {
        let len: usize = game.piles[pos].len();
        assert(game.board().piles[pos as int] == game.piles[pos as int]@);
        if len >= 13 && game.is_sequence(pos, len - 13) {
            if do_complete(game, pos) {
                won = true;
            }
        }
        pos += 1;
    }
    won
}

/// The topmost position of `pile` that holds a card of the given face.
fn find_topmost(pile: &Vec<Card>, face: Face) -> (found: Option<usize>)
    ensures
        match found {
            Some(i) => i as int == topmost_of(pile@, face, pile@.len() as int),
            None => topmost_of(pile@, face, pile@.len() as int) == -1,
        },
        found matches Some(i) ==> i < pile@.len() && pile@[i as int].face == face,
{
    let len: usize = pile.len();
    let mut i: usize = len;
    while i > 0
        invariant
            i <= len,
            len == pile@.len(),
            topmost_of(pile@, face, len as int) == topmost_of(pile@, face, i as int),
        decreases i,
    {
        i -= 1;
        if pile[i].face == face {
            return Some(i);
        }
    }
    None
}

/// Takes back the last action done, if there is one.
fn do_undo(game: &mut GameState) -> (outcome: Outcome)
    requires
        old(game).wf(),
    ensures
        (final(game)@, outcome) == step(old(game)@, Input::Undo),
        final(game).wf(),
{
    if game.history_head == 0 {
        Outcome::NothingToUndo
    } else {
        proof {
            game@.lemma_undo_wf();
        }
        game.history_head -= 1;
        let action = game.history[game.history_head];
        undo_action(game, action);
        Outcome::Applied
    }
}

/// Carries out again the first action undone, if there is one.
fn do_redo(game: &mut GameState) -> (outcome: Outcome)
    requires
        old(game).wf(),
    ensures
        (final(game)@, outcome) == step(old(game)@, Input::Redo),
        final(game).wf(),
{
    if game.history_head == game.history.len() {
        Outcome::NothingToRedo
    } else {
        proof {
            game@.lemma_redo_wf();
            game@.lemma_completed_bound();
        }
        let action = game.history[game.history_head];
        redo_action(game, action);
        game.history_head += 1;
        Outcome::Applied
    }
}

/// Undoes every action done. The log keeps them all, so that they can be redone.
fn do_restart(game: &mut GameState)
    requires
        old(game).wf(),
    ensures
        final(game)@ == old(game)@.restart(),
        final(game).wf(),
{
    while game.history_head > 0
        invariant
            game.wf(),
            game@.restart() == old(game)@.restart(),
        decreases game.history_head,
    {
        let outcome = do_undo(game);
    }
}

/// Deals a row from the reserve and records it, if the reserve can serve it.
fn do_deal(game: &mut GameState) -> (outcome: Outcome)
    requires
        old(game).wf(),
    ensures
        (final(game)@, outcome) == step(old(game)@, Input::Stack),
        final(game).wf(),
{
    if game.stack.len() < 10 {
        return Outcome::StackExhausted;
    }
    proof {
        game@.lemma_perform_wf(Action::Stack);
    }
    deal_row(game);
    game.write(Action::Stack);
    Outcome::Applied
}

/// Moves the cards named if the rules allow it, and says why not if they do not.
fn do_explicit_move(game: &mut GameState, source: usize, index: usize, target: usize) -> (outcome:
    Outcome)
    requires
        old(game).wf(),
        source < 10,
        target < 10,
        index < old(game).board().piles[source as int].len(),
    ensures
        (final(game)@, outcome) == step(old(game)@, (Input::Move { source, index, target })),
        final(game).wf(),
{
    assert(game.board().piles[source as int] == game.piles[source as int]@);
    assert(game.board().piles[target as int] == game.piles[target as int]@);
    if !game.is_sequence(source, index) {
        return Outcome::NotInSequence;
    }
    if game.piles[target].len() > 0 {
        let top = game.piles[target][game.piles[target].len() - 1];
        match top.face.succ() {
            None => {
                return Outcome::CantMoveOntoAce;
            },
            Some(face) => {
                if face != game.piles[source][index].face {
                    return Outcome::SourceNotSuccessor;
                }
            },
        }
    }
    proof {
        if source == target {
            lemma_no_move_within_pile(game.board(), source as int, index as int);
        }
    }
    do_move(game, source, index, target);
    Outcome::Applied
}

/// Finds where the move from `source` onto `target` begins, and makes it if
/// there is one such place.
fn do_smart_move(game: &mut GameState, source: usize, target: usize) -> (outcome: Outcome)
    requires
        old(game).wf(),
        source < 10,
        target < 10,
    ensures
        (final(game)@, outcome) == step(old(game)@, (Input::SmartMove { source, target })),
        final(game).wf(),
{
    assert(game.board().piles[source as int] == game.piles[source as int]@);
    assert(game.board().piles[target as int] == game.piles[target as int]@);
    let len: usize = game.piles[source].len();
    if len == 0 {
        return Outcome::NoCardsToMove;
    }
    if game.piles[target].len() == 0 {
        if len == 1 || !game.is_sequence(source, len - 2) {
            do_move(game, source, len - 1, target);
            return Outcome::Applied;
        }
        return Outcome::MultipleMoves;
    }
    let top = game.piles[target][game.piles[target].len() - 1];
    let face = match top.face.succ() {
        Some(f) => f,
        None => {
            return Outcome::CantMoveOntoAce;
        },
    };
    match find_topmost(&game.piles[source], face) {
        None => Outcome::NoValidMove,
        Some(index) => {
            if !game.is_sequence(source, index) {
                return Outcome::NoValidMove;
            }
            proof {
                if source == target {
                    lemma_no_move_within_pile(game.board(), source as int, index as int);
                }
            }
            do_move(game, source, index, target);
            Outcome::Applied
        },
    }
}

impl GameState {
    /// Whether `input` names only piles that exist and, in a move, a position
    /// that holds a card.
    pub fn accepts(&self, input: &Input) -> (ok: bool)
        ensures
            ok == input.fits(self.board()),
    {
        match input {
            Input::Move { source, index, target } => {
                if *source < 10 && *target < 10 {
                    assert(self.board().piles[*source as int] == self.piles[*source as int]@);
                    *index < self.piles[*source].len()
                } else {
                    false
                }
            },
            Input::CompleteSuit { pos } => *pos < 10,
            Input::SmartMove { source, target } => *source < 10 && *target < 10,
            _ => true,
        }
    }
}

/// Carries out one command: the game becomes what `step` says, and the
/// outcome is the one `step` names. A well-formed game stays well formed,
/// and a command that is refused changes nothing.
pub fn game_step(game: &mut GameState, input: Input) -> (outcome: Outcome)
    requires
        old(game).wf(),
        input.fits(old(game).board()),
    ensures
        (final(game)@, outcome) == step(old(game)@, input),
        final(game).wf(),
        outcome.is_rejection() ==> final(game)@ == old(game)@,
{
    match input {
        Input::NewGame => Outcome::NewGame,
        Input::Quit => Outcome::Quit,
        Input::Help => Outcome::Help,
        Input::Undo => do_undo(game),
        Input::Redo => do_redo(game),
        Input::Restart => {
            do_restart(game);
            Outcome::Applied
        },
        Input::Move { source, index, target } => do_explicit_move(game, source, index, target),
        Input::CompleteSuit { pos } => {
            assert(game.board().piles[pos as int] == game.piles[pos as int]@);
            let len: usize = game.piles[pos].len();
            if len < 13 || !game.is_sequence(pos, len - 13) {
                return Outcome::NotInSequence;
            }
            if do_complete(game, pos) {
                Outcome::Won
            } else {
                Outcome::Applied
            }
        },
        Input::Stack => do_deal(game),
        Input::SmartComp => {
            if do_sweep(game) {
                Outcome::Won
            } else {
                Outcome::Applied
            }
        },
        Input::SmartMove { source, target } => do_smart_move(game, source, target),
    }
}

} // verus!
