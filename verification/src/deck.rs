//! Building the deck: eight rows of thirteen faces, shuffled.

use crate::card::{Card, Face, Suit};
use vstd::prelude::*;

verus! {

/// The suits of the eight rows of a deck that plays with `suits` suits.
pub open spec fn suit_rows(suits: u8) -> Seq<Suit> {
    if suits == 1 {
        seq![
            Suit::Spades,
            Suit::Spades,
            Suit::Spades,
            Suit::Spades,
            Suit::Spades,
            Suit::Spades,
            Suit::Spades,
            Suit::Spades,
        ]
    } else if suits == 2 {
        seq![
            Suit::Spades,
            Suit::Spades,
            Suit::Spades,
            Suit::Spades,
            Suit::Hearts,
            Suit::Hearts,
            Suit::Hearts,
            Suit::Hearts,
        ]
    } else {
        seq![
            Suit::Hearts,
            Suit::Spades,
            Suit::Diamonds,
            Suit::Clubs,
            Suit::Hearts,
            Suit::Spades,
            Suit::Diamonds,
            Suit::Clubs,
        ]
    }
}

/// The deck before it is shuffled: row after row, each from king to ace.
pub open spec fn sorted_cards(suits: u8) -> Seq<Card> {
    Seq::new(104, |k: int| Card { face: Face::below_king(k % 13), suit: suit_rows(suits)[k / 13] })
}

/// The random number generator that `rand::thread_rng` hands out.
#[verifier::external_type_specification]
#[verifier::external_body]
pub struct ExThreadRng(rand::rngs::ThreadRng);

/// `rand::thread_rng` hands out the calling thread's generator. Nothing is
/// claimed of it.
pub assume_specification[ rand::thread_rng ]() -> (rng: rand::rngs::ThreadRng)
;

/// `Itertools::cartesian_product` of the suits with the faces, each pair made
/// a card: for each suit in turn, every face in turn.
#[verifier::external_body]
fn pair_up(suits: [Suit; 8], faces: [Face; 13]) -> (cards: Vec<Card>)
    ensures
        cards@.len() == 104,
        forall|k: int|
            0 <= k < 104 ==> #[trigger] cards@[k] == (Card { face: faces[k % 13], suit: suits[k / 13] }),
{
    itertools::Itertools::cartesian_product(suits.into_iter(), faces)
        .map(|(suit, face)| Card { suit, face })
        .collect()
}

/// `SliceRandom::shuffle` reorders the cards in place: the same cards, each
/// as often as before, in an order that nothing is claimed of.
#[verifier::external_body]
fn shuffle_cards(cards: &mut Vec<Card>, rng: &mut rand::rngs::ThreadRng)
    ensures
        final(cards)@.to_multiset() == old(cards)@.to_multiset(),
{
    rand::seq::SliceRandom::shuffle(cards.as_mut_slice(), rng);
}

/// The deck for a game with `suits` suits, unshuffled: 104 cards in eight
/// rows of thirteen.
pub fn sorted_deck(suits: u8) -> (deck: Vec<Card>)
    requires
        suits == 1 || suits == 2 || suits == 4,
    ensures
        deck@ == sorted_cards(suits),
{
    let rows: [Suit; 8] = if suits == 1 {
        [
            Suit::Spades,
            Suit::Spades,
            Suit::Spades,
            Suit::Spades,
            Suit::Spades,
            Suit::Spades,
            Suit::Spades,
            Suit::Spades,
        ]
    } else if suits == 2 {
        [
            Suit::Spades,
            Suit::Spades,
            Suit::Spades,
            Suit::Spades,
            Suit::Hearts,
            Suit::Hearts,
            Suit::Hearts,
            Suit::Hearts,
        ]
    } else {
        [
            Suit::Hearts,
            Suit::Spades,
            Suit::Diamonds,
            Suit::Clubs,
            Suit::Hearts,
            Suit::Spades,
            Suit::Diamonds,
            Suit::Clubs,
        ]
    };
    assert(rows@ =~= suit_rows(suits));
    let deck = pair_up(rows, Face::all());
    assert(deck@ =~= sorted_cards(suits));
    deck
}

/// A shuffled deck for a game with `suits` suits: the cards of the sorted
/// deck, each as often as there, in some order.
pub fn generate_deck(suits: u8) -> (deck: Vec<Card>)
    requires
        suits == 1 || suits == 2 || suits == 4,
    ensures
        deck@.to_multiset() == sorted_cards(suits).to_multiset(),
        deck@.len() == 104,
{
    let mut cards = sorted_deck(suits);
    let mut rng = rand::thread_rng();
    shuffle_cards(&mut cards, &mut rng);
    proof {
        cards@.to_multiset_ensures();
        sorted_cards(suits).to_multiset_ensures();
    }
    cards
}

} // verus!
