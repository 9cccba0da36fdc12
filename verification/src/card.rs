//! Playing cards: suits, faces and the successor relation between faces.

use vstd::prelude::*;

verus! {

/// The four suits.
#[derive(Clone, Copy, Debug, PartialEq, Eq, Structural)]
pub enum Suit {
    Hearts,
    Spades,
    Diamonds,
    Clubs,
}

/// The thirteen faces, highest first.
#[derive(Clone, Copy, Debug, PartialEq, Eq, Structural)]
pub enum Face {
    King,
    Queen,
    Jack,
    Ten,
    Nine,
    Eight,
    Seven,
    Six,
    Five,
    Four,
    Three,
    Two,
    Ace,
}

/// A card is a face in a suit.
#[derive(Clone, Copy, Debug, PartialEq, Eq, Structural)]
pub struct Card {
    pub face: Face,
    pub suit: Suit,
}

impl Suit {
    /// The glyph that stands for the suit.
    pub open spec fn glyph(self) -> char {
        match self {
            Suit::Hearts => '♡',
            Suit::Spades => '♠',
            Suit::Diamonds => '♢',
            Suit::Clubs => '♣',
        }
    }

    /// The suit's part of a card's code point.
    pub open spec fn code(self) -> u32 {
        match self {
            Suit::Spades => 0xA0,
            Suit::Hearts => 0xB0,
            Suit::Diamonds => 0xC0,
            Suit::Clubs => 0xD0,
        }
    }

    pub fn to_char(&self) -> (c: char)
        ensures
            c == self.glyph(),
    {
        match self {
            Suit::Hearts => '♡',
            Suit::Spades => '♠',
            Suit::Diamonds => '♢',
            Suit::Clubs => '♣',
        }
    }
}

impl Face {
    /// How many faces lie below this one: 0 for the ace, 12 for the king.
    pub open spec fn height(self) -> int {
        match self {
            Face::King => 12,
            Face::Queen => 11,
            Face::Jack => 10,
            Face::Ten => 9,
            Face::Nine => 8,
            Face::Eight => 7,
            Face::Seven => 6,
            Face::Six => 5,
            Face::Five => 4,
            Face::Four => 3,
            Face::Three => 2,
            Face::Two => 1,
            Face::Ace => 0,
        }
    }

    /// The face that lies `depth` steps below the king.
    pub open spec fn below_king(depth: int) -> Face {
        if depth <= 0 {
            Face::King
        } else if depth == 1 {
            Face::Queen
        } else if depth == 2 {
            Face::Jack
        } else if depth == 3 {
            Face::Ten
        } else if depth == 4 {
            Face::Nine
        } else if depth == 5 {
            Face::Eight
        } else if depth == 6 {
            Face::Seven
        } else if depth == 7 {
            Face::Six
        } else if depth == 8 {
            Face::Five
        } else if depth == 9 {
            Face::Four
        } else if depth == 10 {
            Face::Three
        } else if depth == 11 {
            Face::Two
        } else {
            Face::Ace
        }
    }

    /// The next lower face; the ace has none.
    pub open spec fn lower(self) -> Option<Face> {
        match self {
            Face::King => Some(Face::Queen),
            Face::Queen => Some(Face::Jack),
            Face::Jack => Some(Face::Ten),
            Face::Ten => Some(Face::Nine),
            Face::Nine => Some(Face::Eight),
            Face::Eight => Some(Face::Seven),
            Face::Seven => Some(Face::Six),
            Face::Six => Some(Face::Five),
            Face::Five => Some(Face::Four),
            Face::Four => Some(Face::Three),
            Face::Three => Some(Face::Two),
            Face::Two => Some(Face::Ace),
            Face::Ace => None,
        }
    }

    /// The letter or digit that stands for the face.
    pub open spec fn glyph(self) -> char {
        match self {
            Face::King => 'K',
            Face::Queen => 'Q',
            Face::Jack => 'J',
            Face::Ten => 'T',
            Face::Nine => '9',
            Face::Eight => '8',
            Face::Seven => '7',
            Face::Six => '6',
            Face::Five => '5',
            Face::Four => '4',
            Face::Three => '3',
            Face::Two => '2',
            Face::Ace => 'A',
        }
    }

    /// The face's part of a card's code point.
    pub open spec fn code(self) -> u32 {
        match self {
            Face::King => 0x0E,
            Face::Queen => 0x0D,
            Face::Jack => 0x0B,
            Face::Ten => 0x0A,
            Face::Nine => 0x09,
            Face::Eight => 0x08,
            Face::Seven => 0x07,
            Face::Six => 0x06,
            Face::Five => 0x05,
            Face::Four => 0x04,
            Face::Three => 0x03,
            Face::Two => 0x02,
            Face::Ace => 0x01,
        }
    }

    /// `self` may carry `other` in a run: `other` is exactly one step lower.
    pub open spec fn carries(self, other: Face) -> bool {
        other.height() + 1 == self.height()
    }

    /// The successor is the face one step lower, and only the ace has none.
    pub proof fn lemma_lower_is_one_step(self, other: Face)
        ensures
            self.lower() == Some(other) <==> self.carries(other),
            self.lower().is_none() <==> self == Face::Ace,
            0 <= self.height() <= 12,
            Face::below_king(12 - self.height()) == self,
    {
    }

    pub fn succ(&self) -> (next: Option<Face>)
        ensures
            next == self.lower(),
    {
        match self {
            Face::King => Some(Face::Queen),
            Face::Queen => Some(Face::Jack),
            Face::Jack => Some(Face::Ten),
            Face::Ten => Some(Face::Nine),
            Face::Nine => Some(Face::Eight),
            Face::Eight => Some(Face::Seven),
            Face::Seven => Some(Face::Six),
            Face::Six => Some(Face::Five),
            Face::Five => Some(Face::Four),
            Face::Four => Some(Face::Three),
            Face::Three => Some(Face::Two),
            Face::Two => Some(Face::Ace),
            Face::Ace => None,
        }
    }

    pub fn to_char(&self) -> (c: char)
        ensures
            c == self.glyph(),
    {
        match self {
            Face::King => 'K',
            Face::Queen => 'Q',
            Face::Jack => 'J',
            Face::Ten => 'T',
            Face::Nine => '9',
            Face::Eight => '8',
            Face::Seven => '7',
            Face::Six => '6',
            Face::Five => '5',
            Face::Four => '4',
            Face::Three => '3',
            Face::Two => '2',
            Face::Ace => 'A',
        }
    }

    /// All thirteen faces, king first.
    pub fn all() -> (faces: [Face; 13])
        ensures
            forall|k: int| 0 <= k < 13 ==> #[trigger] faces[k] == Face::below_king(k),
    {
        [
            Face::King,
            Face::Queen,
            Face::Jack,
            Face::Ten,
            Face::Nine,
            Face::Eight,
            Face::Seven,
            Face::Six,
            Face::Five,
            Face::Four,
            Face::Three,
            Face::Two,
            Face::Ace,
        ]
    }
}

/// `char::from_u32` gives the character with the given code point, and gives one
/// exactly for the Unicode scalar values: every code up to 0x10FFFF outside the
/// surrogate range.
pub assume_specification[ char::from_u32 ](code: u32) -> (c: Option<char>)
    ensures
        c.is_some() <==> (code <= 0xD7FF || 0xE000 <= code <= 0x10FFFF),
        c matches Some(ch) ==> ch as u32 == code,
;

/// `format!` with two characters and a space between them.
#[verifier::external_body]
fn spaced_pair(left: char, right: char) -> (text: String)
    ensures
        text@ == seq![left, ' ', right],
{
    format!("{} {}", left, right)
}

impl Card {
    /// The code point of the playing-card character: the card's back when it
    /// is hidden, else the block's base with the suit's row and the face's
    /// column.
    pub open spec fn code(self, hidden: bool) -> u32 {
        if hidden {
            0x01F0A0
        } else {
            0x01F000 | self.suit.code() | self.face.code()
        }
    }

    /// The card in three characters: the suit, a space, the face; question
    /// marks for a hidden card.
    pub open spec fn text(self, hidden: bool) -> Seq<char> {
        if hidden {
            seq!['?', ' ', '?']
        } else {
            seq![self.suit.glyph(), ' ', self.face.glyph()]
        }
    }

    pub fn to_string(&self, hidden: bool) -> (text: String)
        ensures
            text@ == self.text(hidden),
    {
        if hidden {
            spaced_pair('?', '?')
        } else {
            spaced_pair(self.suit.to_char(), self.face.to_char())
        }
    }

    pub fn to_char(&self, hidden: bool) -> (c: char)
        ensures
            c as u32 == self.code(hidden),
    {
        let suit: u32 = match self.suit {
            Suit::Spades => 0xA0,
            Suit::Hearts => 0xB0,
            Suit::Diamonds => 0xC0,
            Suit::Clubs => 0xD0,
        };
        let face: u32 = match self.face {
            Face::King => 0x0E,
            Face::Queen => 0x0D,
            Face::Jack => 0x0B,
            Face::Ten => 0x0A,
            Face::Nine => 0x09,
            Face::Eight => 0x08,
            Face::Seven => 0x07,
            Face::Six => 0x06,
            Face::Five => 0x05,
            Face::Four => 0x04,
            Face::Three => 0x03,
            Face::Two => 0x02,
            Face::Ace => 0x01,
        };
        let code: u32 = if hidden {
            0x01F0A0
        } else {
            0x01F000 | suit | face
        };
        assert(0xE000 <= (0x01F000u32 | suit | face) <= 0x10FFFF) by (bit_vector)
            requires
                suit <= 0xD0,
                face <= 0x0E,
        ;
        match char::from_u32(code) {
            Some(c) => c,
            // Never taken: every code above is a scalar value.
            None => '?',
        }
    }
}

} // verus!
