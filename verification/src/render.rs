//! The table as rows of characters, top row first.

use crate::card::Card;
use crate::game::GameState;
use crate::tableau::Board;
use vstd::prelude::*;

verus! {

/// The code points of a row of characters.
pub open spec fn codes(row: Seq<char>) -> Seq<u32> {
    row.map_values(|c: char| c as u32)
}

/// The code point of one digit in base 36: `0` to `9`, then `a` to `z`.
pub open spec fn digit36(d: nat) -> u32 {
    if d < 10 {
        (48 + d) as u32
    } else {
        (87 + d) as u32
    }
}

/// A number in base 36, highest digit first, without leading zeros.
pub open spec fn digits36(n: nat) -> Seq<u32>
    decreases n,
{
    if n < 36 {
        seq![digit36(n)]
    } else {
        digits36(n / 36).push(digit36(n % 36))
    }
}

/// What pile `j` shows in row `i`: its card there and two spaces, or three
/// spaces where the pile ends below the row.
pub open spec fn cell(b: Board, i: int, j: int) -> Seq<u32> {
    if i < b.piles[j].len() {
        seq![b.piles[j][i].code(b.hidden[j] > i), 32u32, 32u32]
    } else {
        seq![32u32, 32u32, 32u32]
    }
}

/// The cells of the first `n` piles in row `i`.
pub open spec fn cells(b: Board, i: int, n: int) -> Seq<u32>
    decreases n,
{
    if n <= 0 {
        Seq::empty()
    } else {
        cells(b, i, n - 1) + cell(b, i, n - 1)
    }
}

/// Row `i` of the table: the row's number in base 36, three spaces, the
/// cells of the ten piles, and a space.
pub open spec fn row_codes(b: Board, i: int) -> Seq<u32> {
    digits36(i as nat) + seq![32u32, 32u32, 32u32] + cells(b, i, 10) + seq![32u32]
}

/// The length of the longest among the first `n` piles.
pub open spec fn tallest(b: Board, n: int) -> int
    decreases n,
{
    if n <= 0 {
        0
    } else if b.piles[n - 1].len() > tallest(b, n - 1) {
        b.piles[n - 1].len() as int
    } else {
        tallest(b, n - 1)
    }
}

/// `radix_fmt::radix_36` formats the number in base 36 with lower-case
/// letters, highest digit first, `0` for zero.
#[verifier::external_body]
fn index_label(i: usize) -> (label: Vec<char>)
    ensures
        codes(label@) == digits36(i as nat),
{
    format!("{}", radix_fmt::radix_36(i)).chars().collect()
}

/// `itertools::enumerate` pairs each pile with its number, counting from 0.
#[verifier::external_body]
fn numbered<'a>(piles: &'a [Vec<Card>; 10]) -> (pairs: Vec<(usize, &'a Vec<Card>)>)
    ensures
        pairs@.len() == 10,
        forall|j: int| 0 <= j < 10 ==> (#[trigger] pairs@[j]).0 == j && *pairs@[j].1 == piles[j],
{
    itertools::enumerate(piles).collect()
}

/// One row of the table.
pub fn render_row(game: &GameState, i: usize) -> (row: Vec<char>)
    ensures
        codes(row@) == row_codes(game.board(), i as int),
{
    let ghost b = game.board();
    let mut row = index_label(i);
    let ghost label = codes(row@);
    row.push(' ');
    row.push(' ');
    row.push(' ');
    assert(codes(row@) =~= label + seq![32u32, 32u32, 32u32] + cells(b, i as int, 0));
    let pairs = numbered(&game.piles);
    let mut j: usize = 0;
    while j < 10
        invariant
            j <= 10,
            b == game.board(),
            pairs@.len() == 10,
            forall|k: int| 0 <= k < 10 ==> (#[trigger] pairs@[k]).0 == k && *pairs@[k].1 == game.piles[k],
            codes(row@) == label + seq![32u32, 32u32, 32u32] + cells(b, i as int, j as int),
        decreases 10 - j,
    {
        let ghost before = codes(row@);
        let (n, pile) = pairs[j];
        assert(b.piles[j as int] == pile@);
        if i < pile.len() {
            let c = pile[i].to_char(game.is_hidden(n, i));
            row.push(c);
        } else {
            row.push(' ');
        }
        row.push(' ');
        row.push(' ');
        assert(codes(row@) =~= before + cell(b, i as int, j as int));
        assert(before + cell(b, i as int, j as int) =~= label + seq![32u32, 32u32, 32u32] + cells(
            b,
            i as int,
            j + 1,
        ));
        j += 1;
    }
    let ghost before = codes(row@);
    row.push(' ');
    assert(codes(row@) =~= before + seq![32u32]);
    row
}

/// The length of the longest pile.
pub fn tallest_pile(game: &GameState) -> (max: usize)
    ensures
        max == tallest(game.board(), 10),
{
    let mut max: usize = 0;
    let mut j: usize = 0;
    while j < 10
        invariant
            j <= 10,
            max == tallest(game.board(), j as int),
        decreases 10 - j,
    {
        assert(game.board().piles[j as int] == game.piles[j as int]@);
        if max < game.piles[j].len() {
            max = game.piles[j].len();
        }
        j += 1;
    }
    max
}

/// The rows of the table from the top of the longest pile down to row 0.
/// The game is not changed.
pub fn print_game(game: &GameState) -> (rows: Vec<Vec<char>>)
    ensures
        rows@.len() == tallest(game.board(), 10),
        forall|r: int|
            0 <= r < rows@.len() ==> codes(#[trigger] rows@[r]@) == row_codes(
                game.board(),
                rows@.len() - 1 - r,
            ),
{
    let max = tallest_pile(game);
    let mut rows: Vec<Vec<char>> = Vec::new();
    let mut i: usize = max;
    while i > 0
        invariant
            i <= max,
            rows@.len() == max - i,
            forall|r: int|
                0 <= r < rows@.len() ==> codes(#[trigger] rows@[r]@) == row_codes(
                    game.board(),
                    max - 1 - r,
                ),
        decreases i,
    {
        i -= 1;
        let row = render_row(game, i);
        rows.push(row);
    }
    rows
}

} // verus!
