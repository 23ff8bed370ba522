//! The record of the turns that were played.

use vstd::prelude::*;
use crate::pieces::{PieceColor, PieceType};

verus! {

/// One completed turn: who moved which kind of piece, from where to where.
#[derive(Clone, Copy, PartialEq, Eq, Debug, Structural)]
pub struct Turn {
    pub color: PieceColor,
    pub piece_type: PieceType,
    pub from_x: u8,
    pub from_y: u8,
    pub to_x: u8,
    pub to_y: u8,
}

/// The turns played so far, oldest first.
#[derive(Clone, Debug)]
pub struct History {
    pub turns: Vec<Turn>,
}

impl View for History {
    type V = Seq<Turn>;

    open spec fn view(&self) -> Seq<Turn> {
        self.turns@
    }
}

/// The most recent turn of a record, if any turn was played.
pub open spec fn last_of(turns: Seq<Turn>) -> Option<Turn> {
    if turns.len() > 0 {
        Some(turns.last())
    } else {
        None
    }
}

impl Default for History {
    /// The record before any turn was played.
    fn default() -> (history: History)
        ensures
            history@ == Seq::<Turn>::empty(),
    {
        History { turns: Vec::new() }
    }
}

impl History {
    /// The most recent turn, if any turn was played.
    pub fn last(&self) -> (turn: Option<Turn>)
        ensures
            turn == last_of(self@),
    {
        let n: usize = self.turns.len();
        if n > 0 {
            Some(self.turns[n - 1])
        } else {
            None
        }
    }
}

/// The character for a decimal digit.
pub open spec fn digit(value: int) -> char {
    if value == 0 {
        '0'
    } else if value == 1 {
        '1'
    } else if value == 2 {
        '2'
    } else if value == 3 {
        '3'
    } else if value == 4 {
        '4'
    } else if value == 5 {
        '5'
    } else if value == 6 {
        '6'
    } else if value == 7 {
        '7'
    } else if value == 8 {
        '8'
    } else {
        '9'
    }
}

/// A number written in decimal digits, without leading zeros.
pub open spec fn decimal(value: nat) -> Seq<char>
    decreases value,
{
    if value < 10 {
        seq![digit(value as int)]
    } else {
        decimal(value / 10).push(digit((value % 10) as int))
    }
}

/// The letter that stands for a side.
pub open spec fn color_letter(color: PieceColor) -> char {
    match color {
        PieceColor::White => 'w',
        PieceColor::Black => 'b',
    }
}

/// The letter that stands for a kind of piece. The knight has the small
/// `k`, the king the capital.
pub open spec fn piece_letter(piece_type: PieceType) -> char {
    match piece_type {
        PieceType::King => 'K',
        PieceType::Queen => 'Q',
        PieceType::Bishop => 'B',
        PieceType::Knight => 'k',
        PieceType::Rook => 'R',
        PieceType::Pawn => 'p',
    }
}

impl Turn {
    /// The turn as a line of text: the side and the piece by their letters,
    /// then the square it left and the square it reached, each as `x:y`, as
    /// in `wp 1:4 -> 3:4`.
    pub open spec fn text(self) -> Seq<char> {
        seq![color_letter(self.color), piece_letter(self.piece_type), ' '] + decimal(
            self.from_x as nat,
        ) + seq![':'] + decimal(self.from_y as nat) + seq![' ', '-', '>', ' '] + decimal(
            self.to_x as nat,
        ) + seq![':'] + decimal(self.to_y as nat)
    }

    /// Writes the turn as a line of text.
    pub fn notation(&self) -> (line: String)
        ensures
            line@ == self.text(),
    {
        let mut line: String = String::new();
        line.append(
            match self.color {
                PieceColor::White => "w",
                PieceColor::Black => "b",
            },
        );
        line.append(
            match self.piece_type {
                PieceType::King => "K",
                PieceType::Queen => "Q",
                PieceType::Bishop => "B",
                PieceType::Knight => "k",
                PieceType::Rook => "R",
                PieceType::Pawn => "p",
            },
        );
        line.append(" ");
        proof {
            reveal_strlit("w");
            reveal_strlit("b");
            reveal_strlit("K");
            reveal_strlit("Q");
            reveal_strlit("B");
            reveal_strlit("k");
            reveal_strlit("R");
            reveal_strlit("p");
            reveal_strlit(" ");
            reveal_strlit(":");
            reveal_strlit(" -> ");
        }
        append_decimal(&mut line, self.from_x);
        line.append(":");
        append_decimal(&mut line, self.from_y);
        line.append(" -> ");
        append_decimal(&mut line, self.to_x);
        line.append(":");
        append_decimal(&mut line, self.to_y);
        line
    }
}

/// The text of one decimal digit.
fn digit_str(value: u8) -> (text: &'static str)
    requires
        value < 10,
    ensures
        text@ == seq![digit(value as int)],
{
    proof {
        reveal_strlit("0");
        reveal_strlit("1");
        reveal_strlit("2");
        reveal_strlit("3");
        reveal_strlit("4");
        reveal_strlit("5");
        reveal_strlit("6");
        reveal_strlit("7");
        reveal_strlit("8");
        reveal_strlit("9");
    }
    let text: &'static str = if value == 0 {
        "0"
    } else if value == 1 {
        "1"
    } else if value == 2 {
        "2"
    } else if value == 3 {
        "3"
    } else if value == 4 {
        "4"
    } else if value == 5 {
        "5"
    } else if value == 6 {
        "6"
    } else if value == 7 {
        "7"
    } else if value == 8 {
        "8"
    } else {
        "9"
    };
    text
}

/// Appends a number in decimal digits to a text.
pub fn append_decimal(text: &mut String, value: u8)
    ensures
        final(text)@ == old(text)@ + decimal(value as nat),
{
    reveal_with_fuel(decimal, 3);
    if value >= 100 {
        text.append(digit_str(value / 100));
    }
    if value >= 10 {
        text.append(digit_str((value / 10) % 10));
    }
    text.append(digit_str(value % 10));
}

/// Keeps the record of turns: starts it empty and appends each turn that is
/// played.
#[derive(Clone, Copy, Debug)]
pub struct HistoryPlugin;

impl HistoryPlugin {
    /// The record at the start of a game: no turn was played.
    pub fn build(&self) -> (history: History)
        ensures
            history@ == Seq::<Turn>::empty(),
    {
        History::default()
    }

    /// Appends the turns in `played`, oldest first, to the record.
    pub fn add_turn_to_history(&self, played: &[Turn], history: &mut History)
        ensures
            final(history)@ == old(history)@ + played@,
    {
        let mut i: usize = 0;
        while i < played.len()
            invariant
                i <= played.len(),
                history@ == old(history)@ + played@.take(i as int),
            decreases played.len() - i,
        {
            history.turns.push(played[i]);
            i += 1;
            assert(played@.take(i as int) == played@.take(i - 1).push(played@[i - 1]));
        }
        assert(played@.take(played.len() as int) == played@);
    }
}

} // verus!
