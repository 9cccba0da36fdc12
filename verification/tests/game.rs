use spider_solitaire::action::Action;
use spider_solitaire::card::{Card, Face, Suit};
use spider_solitaire::deck::{generate_deck, sorted_deck};
use spider_solitaire::engine::{game_step, Input, Outcome};
use spider_solitaire::game::{from_table, init_game, redo_action, undo_action, GameState};

fn card(face: Face, suit: Suit) -> Card {
    Card { face, suit }
}

fn full_suit(suit: Suit) -> Vec<Card> {
    Face::all().iter().map(|f| card(*f, suit)).collect()
}

fn no_piles() -> [Vec<Card>; 10] {
    [vec![], vec![], vec![], vec![], vec![], vec![], vec![], vec![], vec![], vec![]]
}

fn table(piles: [Vec<Card>; 10], hidden: [usize; 10], stack: Vec<Card>) -> GameState {
    from_table(stack, piles, hidden).unwrap()
}

fn set_up_again(game: GameState) -> GameState {
    from_table(game.stack, game.piles, game.hidden).unwrap()
}

fn fresh() -> GameState {
    init_game(sorted_deck(4))
}

fn lengths(game: &GameState) -> Vec<usize> {
    game.piles.iter().map(|p| p.len()).collect()
}

#[test]
fn fresh_deal_layout() {
    let deck = sorted_deck(4);
    let game = init_game(deck.clone());
    assert_eq!(game.stack, deck[..50].to_vec());
    assert_eq!(game.piles[0], deck[50..55].to_vec());
    assert_eq!(game.piles[5], deck[75..80].to_vec());
    assert_eq!(game.piles[6], deck[80..86].to_vec());
    assert_eq!(game.piles[9], deck[98..104].to_vec());
    assert_eq!(lengths(&game), vec![5, 5, 5, 5, 5, 5, 6, 6, 6, 6]);
    assert_eq!(game.hidden, [4, 4, 4, 4, 4, 4, 5, 5, 5, 5]);
    assert_eq!(game.completed, 0);
    assert!(game.history.is_empty());
    assert_eq!(game.history_head, 0);
}

#[test]
fn top_card_is_a_sequence_and_hidden_cards_are_not() {
    let game = fresh();
    for p in 0..10 {
        let len = game.piles[p].len();
        assert!(game.is_sequence(p, len - 1));
        assert!(!game.is_sequence(p, game.hidden[p] - 1));
    }
}

#[test]
fn sequence_needs_one_suit_and_falling_faces() {
    let mut piles = no_piles();
    piles[0] = vec![
        card(Face::Nine, Suit::Hearts),
        card(Face::Eight, Suit::Hearts),
        card(Face::Seven, Suit::Hearts),
        card(Face::Six, Suit::Spades),
        card(Face::Five, Suit::Spades),
        card(Face::Five, Suit::Spades),
    ];
    let mut hidden = [0; 10];
    hidden[0] = 1;
    let game = table(piles, hidden, vec![]);
    assert!(game.is_sequence(0, 5));
    assert!(!game.is_sequence(0, 4));
    assert!(!game.is_sequence(0, 3));
    assert!(!game.is_sequence(0, 0));
    let mut piles = no_piles();
    piles[3] = vec![
        card(Face::Nine, Suit::Hearts),
        card(Face::Eight, Suit::Hearts),
        card(Face::Seven, Suit::Hearts),
    ];
    let mut hidden = [0; 10];
    hidden[3] = 1;
    let game = table(piles, hidden, vec![]);
    assert!(game.is_sequence(3, 2));
    assert!(game.is_sequence(3, 1));
    assert!(!game.is_sequence(3, 0));
    let mut open = game.clone();
    open.hidden[3] = 0;
    let open = set_up_again(open);
    assert!(open.is_sequence(3, 0));
}

#[test]
fn a_run_cannot_pass_an_ace() {
    let mut piles = no_piles();
    piles[0] = vec![card(Face::Two, Suit::Clubs), card(Face::Ace, Suit::Clubs), card(Face::King, Suit::Clubs)];
    let game = table(piles, [0; 10], vec![]);
    assert!(!game.is_sequence(0, 0));
    assert!(!game.is_sequence(0, 1));
    assert!(game.is_sequence(0, 2));
}

#[test]
fn discover_turns_the_last_hidden_card() {
    let mut piles = no_piles();
    piles[2] = vec![card(Face::Nine, Suit::Hearts), card(Face::Four, Suit::Clubs)];
    piles[4] = vec![card(Face::Nine, Suit::Hearts)];
    let mut hidden = [0; 10];
    hidden[2] = 2;
    let mut game = GameState {
        stack: vec![],
        piles,
        hidden,
        completed: 0,
        history: vec![],
        history_head: 0,
    };
    let before = game.clone();
    assert!(!game.discover(4));
    assert!(!game.discover(0));
    assert_eq!(game, before);
    assert!(game.discover(2));
    assert_eq!(game.hidden[2], 1);
    assert_eq!(game.piles, before.piles);
    assert!(!game.discover(2));
    assert_eq!(game.hidden[2], 1);
}

#[test]
fn write_appends_and_drops_the_undone() {
    let mut game = fresh();
    game.write(Action::Stack);
    game.write(Action::CompleteSuit { pos: 1, suit: Suit::Clubs, discover: false });
    assert_eq!(game.history.len(), 2);
    assert_eq!(game.history_head, 2);
    game.history_head = 1;
    let action = Action::Move { source: 0, source_i: 4, target: 1, target_i: 5, discover: true };
    game.write(action);
    assert_eq!(game.history, vec![Action::Stack, action]);
    assert_eq!(game.history_head, 2);
}

#[test]
fn complete_suit_on_pile_six_and_undo() {
    let mut game = fresh();
    game.piles[6].extend(full_suit(Suit::Spades));
    let mut game = set_up_again(game);
    let before = game.clone();
    assert_eq!(game_step(&mut game, Input::CompleteSuit { pos: 6 }), Outcome::Applied);
    assert_eq!(game.completed, 1);
    assert_eq!(game.piles[6].len(), before.piles[6].len() - 13);
    assert_eq!(game.piles[6], before.piles[6][..6].to_vec());
    assert_eq!(
        game.history,
        vec![Action::CompleteSuit { pos: 6, suit: Suit::Spades, discover: false }]
    );
    assert_eq!(game_step(&mut game, Input::Undo), Outcome::Applied);
    assert_eq!(game.piles[6][6..].to_vec(), full_suit(Suit::Spades));
    assert_eq!(game.piles, before.piles);
    assert_eq!(game.hidden, before.hidden);
    assert_eq!(game.stack, before.stack);
    assert_eq!(game.completed, 0);
    assert_eq!(game_step(&mut game, Input::Redo), Outcome::Applied);
    assert_eq!(game.completed, 1);
    assert_eq!(game.piles[6].len(), 6);
}

#[test]
fn complete_suit_turns_the_card_below() {
    let mut piles = no_piles();
    piles[1] = vec![card(Face::Four, Suit::Hearts), card(Face::Five, Suit::Hearts)];
    piles[1].extend(full_suit(Suit::Diamonds));
    let mut hidden = [0; 10];
    hidden[1] = 2;
    let mut game = table(piles, hidden, vec![]);
    let before = game.clone();
    assert_eq!(game_step(&mut game, Input::CompleteSuit { pos: 1 }), Outcome::Applied);
    assert_eq!(game.hidden[1], 1);
    assert_eq!(
        game.history,
        vec![Action::CompleteSuit { pos: 1, suit: Suit::Diamonds, discover: true }]
    );
    assert_eq!(game_step(&mut game, Input::Undo), Outcome::Applied);
    assert_eq!(game.piles, before.piles);
    assert_eq!(game.hidden, before.hidden);
    assert_eq!(game.completed, 0);
}

#[test]
fn complete_suit_refuses_what_is_no_full_run() {
    let mut shuffled = full_suit(Suit::Spades);
    shuffled.swap(3, 4);
    let mut ascending = full_suit(Suit::Spades);
    ascending.reverse();
    let mut mixed = full_suit(Suit::Spades);
    mixed[7] = card(Face::Six, Suit::Hearts);
    let mut piles = no_piles();
    piles[0] = shuffled;
    piles[1] = ascending;
    piles[2] = mixed;
    piles[3] = full_suit(Suit::Clubs)[1..].to_vec();
    piles[4] = full_suit(Suit::Clubs);
    let mut hidden = [0; 10];
    hidden[4] = 1;
    let mut game = table(piles, hidden, vec![]);
    let before = game.clone();
    for pos in 0..10 {
        assert_eq!(game_step(&mut game, Input::CompleteSuit { pos }), Outcome::NotInSequence);
        assert_eq!(game, before);
    }
    assert_eq!(game_step(&mut game, Input::SmartComp), Outcome::Applied);
    assert_eq!(game, before);
}

#[test]
fn smart_move_takes_the_lone_six() {
    let mut game = fresh();
    game.piles[5].push(card(Face::Seven, Suit::Hearts));
    game.piles[2].push(card(Face::Nine, Suit::Clubs));
    game.piles[2].push(card(Face::Six, Suit::Spades));
    let mut game = set_up_again(game);
    let before = game.clone();
    assert_eq!(game_step(&mut game, Input::SmartMove { source: 2, target: 5 }), Outcome::Applied);
    assert_eq!(game.piles[2], before.piles[2][..6].to_vec());
    assert_eq!(game.piles[5].len(), before.piles[5].len() + 1);
    assert_eq!(game.piles[5].last(), Some(&card(Face::Six, Suit::Spades)));
    assert_eq!(
        game.history,
        vec![Action::Move { source: 2, source_i: 6, target: 5, target_i: 6, discover: false }]
    );
    assert_eq!(game.hidden, before.hidden);
}

#[test]
fn smart_move_takes_the_whole_run_that_fits() {
    let mut piles = no_piles();
    piles[0] = vec![
        card(Face::Six, Suit::Clubs),
        card(Face::King, Suit::Clubs),
        card(Face::Six, Suit::Spades),
        card(Face::Five, Suit::Spades),
        card(Face::Four, Suit::Spades),
    ];
    piles[1] = vec![card(Face::Seven, Suit::Hearts)];
    let mut hidden = [0; 10];
    hidden[0] = 2;
    let mut game = table(piles, hidden, vec![]);
    assert_eq!(game_step(&mut game, Input::SmartMove { source: 0, target: 1 }), Outcome::Applied);
    assert_eq!(game.piles[0], vec![card(Face::Six, Suit::Clubs), card(Face::King, Suit::Clubs)]);
    assert_eq!(
        game.piles[1],
        vec![
            card(Face::Seven, Suit::Hearts),
            card(Face::Six, Suit::Spades),
            card(Face::Five, Suit::Spades),
            card(Face::Four, Suit::Spades),
        ]
    );
    assert_eq!(game.hidden[0], 1);
    assert_eq!(
        game.history,
        vec![Action::Move { source: 0, source_i: 2, target: 1, target_i: 1, discover: true }]
    );
}

#[test]
fn smart_move_refusals() {
    let mut piles = no_piles();
    piles[0] = vec![card(Face::Six, Suit::Spades), card(Face::Five, Suit::Spades)];
    piles[1] = vec![card(Face::Ace, Suit::Hearts)];
    piles[2] = vec![card(Face::Seven, Suit::Hearts)];
    piles[3] = vec![card(Face::Six, Suit::Clubs), card(Face::Nine, Suit::Clubs)];
    piles[4] = vec![card(Face::Ten, Suit::Clubs)];
    let mut game = table(piles, [0; 10], vec![]);
    let before = game.clone();
    assert_eq!(game_step(&mut game, Input::SmartMove { source: 9, target: 0 }), Outcome::NoCardsToMove);
    assert_eq!(game_step(&mut game, Input::SmartMove { source: 9, target: 9 }), Outcome::NoCardsToMove);
    assert_eq!(game_step(&mut game, Input::SmartMove { source: 0, target: 9 }), Outcome::MultipleMoves);
    assert_eq!(game_step(&mut game, Input::SmartMove { source: 0, target: 1 }), Outcome::CantMoveOntoAce);
    assert_eq!(game_step(&mut game, Input::SmartMove { source: 3, target: 2 }), Outcome::NoValidMove);
    assert_eq!(game_step(&mut game, Input::SmartMove { source: 0, target: 4 }), Outcome::NoValidMove);
    assert_eq!(game_step(&mut game, Input::SmartMove { source: 0, target: 0 }), Outcome::NoValidMove);
    assert_eq!(game_step(&mut game, Input::SmartMove { source: 1, target: 1 }), Outcome::CantMoveOntoAce);
    assert_eq!(game, before);
}

#[test]
fn smart_move_onto_an_empty_pile_takes_one_card() {
    let mut piles = no_piles();
    piles[0] = vec![card(Face::Six, Suit::Spades)];
    piles[3] = vec![
        card(Face::Two, Suit::Clubs),
        card(Face::Six, Suit::Clubs),
        card(Face::Nine, Suit::Clubs),
    ];
    let mut hidden = [0; 10];
    hidden[3] = 2;
    let mut game = table(piles, hidden, vec![]);
    assert_eq!(game_step(&mut game, Input::SmartMove { source: 0, target: 8 }), Outcome::Applied);
    assert!(game.piles[0].is_empty());
    assert_eq!(game.piles[8], vec![card(Face::Six, Suit::Spades)]);
    assert_eq!(game_step(&mut game, Input::SmartMove { source: 3, target: 0 }), Outcome::Applied);
    assert_eq!(game.piles[0], vec![card(Face::Nine, Suit::Clubs)]);
    assert_eq!(game.piles[3].len(), 2);
    assert_eq!(game.hidden[3], 1);
    assert_eq!(
        game.history,
        vec![
            Action::Move { source: 0, source_i: 0, target: 8, target_i: 0, discover: false },
            Action::Move { source: 3, source_i: 2, target: 0, target_i: 0, discover: true },
        ]
    );
    assert_eq!(game_step(&mut game, Input::Undo), Outcome::Applied);
    assert_eq!(game_step(&mut game, Input::Undo), Outcome::Applied);
    assert_eq!(game.piles[0], vec![card(Face::Six, Suit::Spades)]);
    assert_eq!(game.piles[3].len(), 3);
    assert_eq!(game.hidden[3], 2);
    assert_eq!(game_step(&mut game, Input::Redo), Outcome::Applied);
    assert_eq!(game_step(&mut game, Input::Redo), Outcome::Applied);
    assert_eq!(game.piles[0], vec![card(Face::Nine, Suit::Clubs)]);
    assert_eq!(game.hidden[3], 1);
}

#[test]
fn broken_run_does_not_move() {
    let mut piles = no_piles();
    piles[0] = vec![
        card(Face::King, Suit::Clubs),
        card(Face::Two, Suit::Clubs),
        card(Face::Three, Suit::Clubs),
        card(Face::Nine, Suit::Hearts),
        card(Face::Eight, Suit::Hearts),
        card(Face::Six, Suit::Hearts),
    ];
    piles[1] = vec![card(Face::Ten, Suit::Spades)];
    let mut game = table(piles, [0; 10], vec![]);
    let before = game.clone();
    assert!(!game.is_sequence(0, 3));
    assert_eq!(game_step(&mut game, Input::Move { source: 0, index: 3, target: 1 }), Outcome::NotInSequence);
    assert_eq!(game.piles[0], before.piles[0]);
    assert_eq!(game.piles[1], before.piles[1]);
    assert_eq!(game.history.len(), 0);
    assert_eq!(game, before);
}

#[test]
fn explicit_move_rules() {
    let mut piles = no_piles();
    piles[0] = vec![
        card(Face::King, Suit::Clubs),
        card(Face::Nine, Suit::Hearts),
        card(Face::Eight, Suit::Hearts),
    ];
    piles[1] = vec![card(Face::Ten, Suit::Spades)];
    piles[2] = vec![card(Face::Ace, Suit::Hearts)];
    piles[3] = vec![card(Face::Jack, Suit::Hearts)];
    let mut hidden = [0; 10];
    hidden[0] = 1;
    let mut game = table(piles, hidden, vec![]);
    let before = game.clone();
    assert_eq!(game_step(&mut game, Input::Move { source: 0, index: 0, target: 9 }), Outcome::NotInSequence);
    assert_eq!(game_step(&mut game, Input::Move { source: 0, index: 1, target: 2 }), Outcome::CantMoveOntoAce);
    assert_eq!(game_step(&mut game, Input::Move { source: 0, index: 1, target: 3 }), Outcome::SourceNotSuccessor);
    assert_eq!(game_step(&mut game, Input::Move { source: 0, index: 2, target: 1 }), Outcome::SourceNotSuccessor);
    assert_eq!(game_step(&mut game, Input::Move { source: 0, index: 1, target: 0 }), Outcome::SourceNotSuccessor);
    assert_eq!(game_step(&mut game, Input::Move { source: 2, index: 0, target: 2 }), Outcome::CantMoveOntoAce);
    assert_eq!(game, before);
    assert_eq!(game_step(&mut game, Input::Move { source: 0, index: 1, target: 1 }), Outcome::Applied);
    assert_eq!(game.piles[0], vec![card(Face::King, Suit::Clubs)]);
    assert_eq!(
        game.piles[1],
        vec![
            card(Face::Ten, Suit::Spades),
            card(Face::Nine, Suit::Hearts),
            card(Face::Eight, Suit::Hearts),
        ]
    );
    assert_eq!(game.hidden[0], 0);
    assert_eq!(
        game.history,
        vec![Action::Move { source: 0, source_i: 1, target: 1, target_i: 1, discover: true }]
    );
    assert_eq!(game.history_head, 1);
    assert_eq!(game_step(&mut game, Input::Move { source: 0, index: 0, target: 7 }), Outcome::Applied);
    assert!(game.piles[0].is_empty());
    assert_eq!(game.piles[7], vec![card(Face::King, Suit::Clubs)]);
    assert_eq!(game_step(&mut game, Input::Undo), Outcome::Applied);
    assert_eq!(game_step(&mut game, Input::Undo), Outcome::Applied);
    assert_eq!(game.piles, before.piles);
    assert_eq!(game.hidden, before.hidden);
    assert_eq!(game.stack, before.stack);
    assert_eq!(game.completed, before.completed);
}

#[test]
fn deal_puts_the_end_of_the_reserve_on_pile_zero() {
    let deck = sorted_deck(4);
    let mut game = init_game(deck.clone());
    let before = game.clone();
    assert_eq!(game_step(&mut game, Input::Stack), Outcome::Applied);
    assert_eq!(game.stack, deck[..40].to_vec());
    for p in 0..10 {
        assert_eq!(game.piles[p].len(), before.piles[p].len() + 1);
        assert_eq!(game.piles[p].last(), Some(&deck[49 - p]));
    }
    assert_eq!(game.hidden, before.hidden);
    assert_eq!(game.history, vec![Action::Stack]);
}

#[test]
fn undo_gives_the_table_back_and_redo_gives_it_again() {
    let mut game = fresh();
    let start = game.clone();
    assert_eq!(game_step(&mut game, Input::Stack), Outcome::Applied);
    let dealt = game.clone();
    assert_eq!(game_step(&mut game, Input::Undo), Outcome::Applied);
    assert_eq!(game.piles, start.piles);
    assert_eq!(game.hidden, start.hidden);
    assert_eq!(game.stack, start.stack);
    assert_eq!(game.completed, start.completed);
    assert_eq!(game.history_head, 0);
    assert_eq!(game.history.len(), 1);
    assert_eq!(game_step(&mut game, Input::Redo), Outcome::Applied);
    assert_eq!(game, dealt);
}

#[test]
fn deals_run_out() {
    let mut game = fresh();
    let rows = game.stack.len() / 10;
    assert_eq!(rows, 5);
    for _ in 0..rows {
        assert_eq!(game_step(&mut game, Input::Stack), Outcome::Applied);
    }
    assert!(game.stack.is_empty());
    assert_eq!(lengths(&game), vec![10, 10, 10, 10, 10, 10, 11, 11, 11, 11]);
    let before = game.clone();
    assert_eq!(game_step(&mut game, Input::Stack), Outcome::StackExhausted);
    assert_eq!(game, before);
}

#[test]
fn nothing_to_undo_or_redo() {
    let mut game = fresh();
    let before = game.clone();
    assert_eq!(game_step(&mut game, Input::Undo), Outcome::NothingToUndo);
    assert_eq!(game_step(&mut game, Input::Redo), Outcome::NothingToRedo);
    assert_eq!(game_step(&mut game, Input::Restart), Outcome::Applied);
    assert_eq!(game, before);
}

#[test]
fn a_new_action_after_undo_leaves_nothing_to_redo() {
    let mut piles = no_piles();
    piles[0] = vec![card(Face::Six, Suit::Spades)];
    piles[1] = vec![card(Face::Seven, Suit::Hearts)];
    let stack = sorted_deck(1)[..10].to_vec();
    let mut game = table(piles, [0; 10], stack);
    assert_eq!(game_step(&mut game, Input::Move { source: 0, index: 0, target: 1 }), Outcome::Applied);
    assert_eq!(game_step(&mut game, Input::Undo), Outcome::Applied);
    assert_eq!(game_step(&mut game, Input::Stack), Outcome::Applied);
    assert_eq!(game.history, vec![Action::Stack]);
    assert_eq!(game.history_head, 1);
    let before = game.clone();
    assert_eq!(game_step(&mut game, Input::Redo), Outcome::NothingToRedo);
    assert_eq!(game, before);
}

#[test]
fn restart_rewinds_and_keeps_the_log() {
    let mut game = fresh();
    let start = game.clone();
    assert_eq!(game_step(&mut game, Input::Stack), Outcome::Applied);
    assert_eq!(game_step(&mut game, Input::Stack), Outcome::Applied);
    let played = game.clone();
    assert_eq!(game_step(&mut game, Input::Restart), Outcome::Applied);
    assert_eq!(game.piles, start.piles);
    assert_eq!(game.stack, start.stack);
    assert_eq!(game.hidden, start.hidden);
    assert_eq!(game.history_head, 0);
    assert_eq!(game.history, played.history);
    assert_eq!(game_step(&mut game, Input::Redo), Outcome::Applied);
    assert_eq!(game_step(&mut game, Input::Redo), Outcome::Applied);
    assert_eq!(game, played);
}

#[test]
fn smart_complete_clears_every_full_pile_and_wins() {
    let mut piles = no_piles();
    for p in 0..8 {
        piles[p] = full_suit(if p % 2 == 0 { Suit::Hearts } else { Suit::Clubs });
    }
    piles[8] = vec![card(Face::Two, Suit::Clubs)];
    let mut game = table(piles, [0; 10], vec![]);
    let before = game.clone();
    assert_eq!(game_step(&mut game, Input::SmartComp), Outcome::Won);
    assert_eq!(game.completed, 8);
    assert_eq!(lengths(&game), vec![0, 0, 0, 0, 0, 0, 0, 0, 1, 0]);
    assert_eq!(game.history.len(), 8);
    assert_eq!(game.history[0], Action::CompleteSuit { pos: 0, suit: Suit::Hearts, discover: false });
    assert_eq!(game.history[7], Action::CompleteSuit { pos: 7, suit: Suit::Clubs, discover: false });
    assert_eq!(game_step(&mut game, Input::Undo), Outcome::Applied);
    assert_eq!(game.completed, 7);
    assert_eq!(game.piles[7], full_suit(Suit::Clubs));
    assert_eq!(game_step(&mut game, Input::CompleteSuit { pos: 7 }), Outcome::Won);
    assert_eq!(game_step(&mut game, Input::Restart), Outcome::Applied);
    assert_eq!(game.piles, before.piles);
    assert_eq!(game.completed, 0);
}

#[test]
fn commands_that_only_report() {
    let mut game = fresh();
    let before = game.clone();
    assert_eq!(game_step(&mut game, Input::NewGame), Outcome::NewGame);
    assert_eq!(game_step(&mut game, Input::Help), Outcome::Help);
    assert_eq!(game_step(&mut game, Input::Quit), Outcome::Quit);
    assert_eq!(game, before);
}

#[test]
fn outcome_messages() {
    assert_eq!(Outcome::Applied.message(), "");
    assert_eq!(Outcome::Won.message(), "You win!");
    assert_eq!(Outcome::NewGame.message(), "New Game...\nUndoing...");
    assert_eq!(Outcome::Quit.message(), "Bye!");
    assert_eq!(Outcome::SourceNotSuccessor.message(), "source not succ of target");
    assert_eq!(Outcome::NoCardsToMove.message(), "No cards to move");
    assert_eq!(Outcome::NothingToUndo.message(), "Nothing to undo");
    assert_eq!(Outcome::NothingToRedo.message(), "Nothing to redo");
    assert_eq!(Outcome::NotInSequence.message(), "Not in sequence");
    assert_eq!(Outcome::CantMoveOntoAce.message(), "can't move onto ace");
    assert_eq!(Outcome::StackExhausted.message(), "Stack exhausted");
    assert_eq!(Outcome::MultipleMoves.message(), "Multiple moves possible; use Mxyz notation");
    assert_eq!(Outcome::NoValidMove.message(), "No valid move found");
    assert!(Outcome::Help.message().starts_with("H: print this again\n"));
}

#[test]
fn accepts_only_what_names_cards_that_exist() {
    let game = fresh();
    assert!(game.accepts(&Input::Move { source: 0, index: 4, target: 9 }));
    assert!(!game.accepts(&Input::Move { source: 0, index: 5, target: 9 }));
    assert!(!game.accepts(&Input::Move { source: 10, index: 0, target: 9 }));
    assert!(!game.accepts(&Input::Move { source: 0, index: 0, target: 10 }));
    assert!(game.accepts(&Input::CompleteSuit { pos: 9 }));
    assert!(!game.accepts(&Input::CompleteSuit { pos: 10 }));
    assert!(game.accepts(&Input::SmartMove { source: 9, target: 0 }));
    assert!(!game.accepts(&Input::SmartMove { source: 9, target: 11 }));
    assert!(game.accepts(&Input::Undo));
}

#[test]
fn undo_and_redo_of_single_actions() {
    let mut game = fresh();
    let start = game.clone();
    redo_action(&mut game, Action::Stack);
    assert_eq!(game.stack.len(), 40);
    assert_eq!(game.history_head, 0);
    undo_action(&mut game, Action::Stack);
    assert_eq!(game, start);
    let action = Action::Move { source: 0, source_i: 4, target: 1, target_i: 5, discover: true };
    redo_action(&mut game, action);
    assert_eq!(game.piles[0].len(), 4);
    assert_eq!(game.piles[1].len(), 6);
    assert_eq!(game.hidden[0], 3);
    undo_action(&mut game, action);
    assert_eq!(game, start);
}

#[test]
fn what_the_table_shows() {
    let mut game = fresh();
    assert!(game.is_hidden(0, 3));
    assert!(!game.is_hidden(0, 4));
    assert!(game.is_hidden(9, 4));
    assert!(!game.is_hidden(9, 5));
    assert_eq!(game.reserve_len(), 50);
    assert!(!game.is_won());
    assert_eq!(game_step(&mut game, Input::Stack), Outcome::Applied);
    assert_eq!(game.reserve_len(), 40);
}

#[test]
fn a_longer_deck_goes_onto_the_last_pile() {
    let mut deck = sorted_deck(2);
    deck.push(card(Face::Two, Suit::Diamonds));
    deck.push(card(Face::Three, Suit::Diamonds));
    let game = init_game(deck.clone());
    assert_eq!(game.piles[9], deck[98..].to_vec());
    assert_eq!(game.piles[9].len(), 8);
    assert_eq!(game.piles[8], deck[92..98].to_vec());
}

fn top_cards_are_face_up(game: &GameState) -> bool {
    (0..10).all(|p| {
        let len = game.piles[p].len();
        if len == 0 {
            game.hidden[p] == 0
        } else {
            game.hidden[p] < len
        }
    })
}

#[test]
fn a_shuffled_game_rewinds_to_its_deal_and_replays() {
    for suits in [1u8, 2, 4] {
        let mut game = init_game(generate_deck(suits));
        let start = game.clone();
        let mut applied = 0;
        for round in 0..6 {
            for source in 0..10 {
                for target in 0..10 {
                    let outcome = game_step(&mut game, Input::SmartMove { source, target });
                    if outcome == Outcome::Applied {
                        applied += 1;
                    }
                    assert!(top_cards_are_face_up(&game));
                }
            }
            game_step(&mut game, Input::SmartComp);
            let dealt = game_step(&mut game, Input::Stack);
            assert_eq!(dealt == Outcome::Applied, round < 5);
            assert!(top_cards_are_face_up(&game));
        }
        assert!(game.stack.is_empty());
        assert!(game.history_head >= 5);
        assert!(game.history_head >= applied);
        assert_eq!(game.history_head, game.history.len());
        let cards: usize = game.piles.iter().map(|p| p.len()).sum();
        assert_eq!(cards + 13 * game.completed, 104);
        let played = game.clone();
        assert_eq!(game_step(&mut game, Input::Restart), Outcome::Applied);
        assert_eq!(game.piles, start.piles);
        assert_eq!(game.hidden, start.hidden);
        assert_eq!(game.stack, start.stack);
        assert_eq!(game.completed, 0);
        assert_eq!(game.history, played.history);
        while game_step(&mut game, Input::Redo) == Outcome::Applied {}
        assert_eq!(game, played);
    }
}

#[test]
fn a_table_is_set_up_only_if_it_is_well_formed() {
    let mut piles = no_piles();
    piles[0] = vec![card(Face::Six, Suit::Spades), card(Face::Nine, Suit::Spades)];
    let stack = sorted_deck(1)[..20].to_vec();
    let mut hidden = [0; 10];
    hidden[0] = 1;
    let game = from_table(stack.clone(), piles.clone(), hidden).unwrap();
    assert_eq!(game.stack, stack);
    assert_eq!(game.piles, piles);
    assert_eq!(game.hidden, hidden);
    assert_eq!(game.completed, 0);
    assert!(game.history.is_empty());
    assert_eq!(game.history_head, 0);
    assert_eq!(from_table(stack[..15].to_vec(), piles.clone(), hidden), None);
    hidden[0] = 2;
    assert_eq!(from_table(stack.clone(), piles.clone(), hidden), None);
    hidden[0] = 0;
    hidden[5] = 1;
    assert_eq!(from_table(stack.clone(), piles.clone(), hidden), None);
    hidden[5] = 0;
    assert!(from_table(vec![], piles, hidden).is_some());
}
