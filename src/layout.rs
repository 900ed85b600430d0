use crate::card::{Card, Rank};
use crate::enemy::repeated;
use vstd::prelude::*;

verus! {

/// The number of lines of the game guide pane, for scrolling.
pub fn get_game_guide_line_count() -> (n: usize)
    ensures
        n == 64,
{
    64
}

/// The number of lines of the help overlay, for scrolling.
pub fn get_help_line_count() -> (n: usize)
    ensures
        n == 177,
{
    177
}

/// `s` followed by spaces up to `width` characters.
pub open spec fn pad_right(s: Seq<char>, width: nat) -> Seq<char> {
    s + repeated(' ', (width - s.len()) as nat)
}

/// `s` preceded by spaces up to `width` characters.
pub open spec fn pad_left(s: Seq<char>, width: nat) -> Seq<char> {
    repeated(' ', (width - s.len()) as nat) + s
}

/// The five lines of a card drawn small: its rank in the top left and
/// bottom right corners and its suit in the middle.
pub open spec fn card_art(card: Card) -> Seq<Seq<char>> {
    let rank = card.rank.spec_display();
    seq![
        ".------."@,
        "|"@ + pad_right(rank, 4) + "  |"@,
        "|  "@ + card.suit.spec_symbol_str() + "   |"@,
        "|  "@ + pad_left(rank, 4) + "|"@,
        "'------'"@,
    ]
}

fn spaces(n: usize) -> (s: String)
    ensures
        s@ == repeated(' ', n as nat),
{
    let mut s = String::new();
    let mut i: usize = 0;
    while i < n
        invariant
            i <= n,
            s@ == repeated(' ', i as nat),
        decreases n - i,
    {
        proof {
            reveal_strlit(" ");
        }
        s.append(" ");
        i = i + 1;
        assert(s@ =~= repeated(' ', i as nat));
    }
    s
}

/// A card drawn in five lines of text, for the hand display.
pub fn render_card_small(card: &Card) -> (lines: Vec<String>)
    ensures
        lines@.map_values(|l: String| l@) == card_art(*card),
{
    let rank = card.rank.display();
    proof {
        reveal_strlit("10");
        reveal_strlit("A");
        reveal_strlit("2");
        reveal_strlit("3");
        reveal_strlit("4");
        reveal_strlit("5");
        reveal_strlit("6");
        reveal_strlit("7");
        reveal_strlit("8");
        reveal_strlit("9");
        reveal_strlit("J");
        reveal_strlit("Q");
        reveal_strlit("K");
        reveal_strlit("*");
    }
    let width: usize = if card.rank == Rank::Ten { 2 } else { 1 };
    assert(rank@.len() == width);
    let pad = spaces(4 - width);
    let top = String::from_str("|").concat(rank.as_str()).concat(pad.as_str()).concat("  |");
    let middle = String::from_str("|  ").concat(card.suit.symbol_str()).concat("   |");
    let bottom = String::from_str("|  ").concat(pad.as_str()).concat(rank.as_str()).concat("|");
    assert(top@ =~= "|"@ + pad_right(rank@, 4) + "  |"@);
    assert(bottom@ =~= "|  "@ + pad_left(rank@, 4) + "|"@);
    let lines = vec![
        String::from_str(".------."),
        top,
        middle,
        bottom,
        String::from_str("'------'"),
    ];
    assert(lines@.map_values(|l: String| l@) =~= card_art(*card));
    lines
}

} // verus!
