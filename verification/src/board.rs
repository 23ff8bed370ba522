//! The board around the pieces: its squares, whose turn it is, and what a
//! click or a move changes.

use vstd::prelude::*;
use crate::history::Turn;
use crate::pieces::{occupied_by, Piece, PieceColor, PieceType, FIELD_SIZE, KILL_ENERGY};

verus! {

/// A square of the board.
#[derive(Clone, Copy, PartialEq, Eq, Debug, Structural)]
pub struct Square {
    pub x: u8,
    pub y: u8,
}

impl Square {
    /// Squares alternate in colour, and `(0, 0)` is dark.
    pub open spec fn light(self) -> bool {
        (self.x + self.y) % 2 == 1
    }

    /// Whether the square is a light one.
    pub fn is_white(&self) -> (white: bool)
        ensures
            white == self.light(),
    {
        (self.x as u16 + self.y as u16 + 1) % 2 == 0
    }
}

/// The squares of the board in their order: rank by rank, and within a rank
/// file by file.
pub open spec fn all_squares() -> Seq<Square> {
    Seq::new(
        (FIELD_SIZE * FIELD_SIZE) as nat,
        |i: int| Square { x: (i / FIELD_SIZE as int) as u8, y: (i % FIELD_SIZE as int) as u8 },
    )
}

/// How a square is to be shown.
#[derive(Clone, Copy, PartialEq, Eq, Debug, Structural)]
pub enum SquareShade {
    /// The pointer is over the square.
    Highlight,
    /// The selected piece stands on the square.
    Selected,
    /// A light square.
    White,
    /// A dark square.
    Black,
    /// A light square that the selected piece may move to.
    MovableWhite,
    /// A dark square that the selected piece may move to.
    MovableBlack,
}

/// The shade of a square: being under the pointer outweighs being selected,
/// and both outweigh the square's own colour.
pub open spec fn shade_of(square: Square, hovered: bool, selected: bool, movable: bool) -> SquareShade {
    if hovered {
        SquareShade::Highlight
    } else if selected {
        SquareShade::Selected
    } else if square.light() {
        if movable {
            SquareShade::MovableWhite
        } else {
            SquareShade::White
        }
    } else {
        if movable {
            SquareShade::MovableBlack
        } else {
            SquareShade::Black
        }
    }
}

/// The side that is to move.
#[derive(Clone, Copy, PartialEq, Eq, Debug, Structural)]
pub struct PlayerTurn(pub PieceColor);

impl Default for PlayerTurn {
    /// White moves first.
    fn default() -> (turn: PlayerTurn)
        ensures
            turn.0 == PieceColor::White,
    {
        PlayerTurn(PieceColor::White)
    }
}

impl PlayerTurn {
    /// Hands the move to the other side.
    pub fn change(&mut self)
        ensures
            final(self).0 == old(self).0.opposite(),
    {
        self.0 = match self.0 {
            PieceColor::White => PieceColor::Black,
            PieceColor::Black => PieceColor::White,
        }
    }
}

/// What a click on the board leads to.
#[derive(Clone, Copy, PartialEq, Eq, Debug, Structural)]
pub enum Selection {
    /// The piece at this index of the snapshot becomes the selected one.
    Piece(usize),
    /// The selected piece is to move to this square.
    Move(u8, u8),
    /// Nothing stays selected.
    Deselect,
}

/// The piece `pieces[index]` is the first piece of `color` on `square`.
pub open spec fn first_own_piece(pieces: Seq<Piece>, color: PieceColor, square: Square, index: int) -> bool {
    &&& 0 <= index < pieces.len()
    &&& pieces[index].color == color
    &&& pieces[index].stands_on(square.x as int, square.y as int)
    &&& forall|j: int|
        0 <= j < index ==> !((#[trigger] pieces[j]).color == color && pieces[j].stands_on(
            square.x as int,
            square.y as int,
        ))
}

/// The energy of a piece after a move: taking a piece adds `KILL_ENERGY`, up
/// to the most a `u8` holds.
pub open spec fn energy_after(energy: u8, takes: bool) -> u8 {
    if !takes {
        energy
    } else if energy + KILL_ENERGY > u8::MAX {
        u8::MAX
    } else {
        (energy + KILL_ENERGY) as u8
    }
}

/// The rules of the board: how its squares are shown, what a click selects,
/// and what a move changes.
#[derive(Clone, Copy, Debug)]
pub struct BoardPlugin;

impl BoardPlugin {
    /// The squares of the board: rank by rank, and within a rank file by file.
    pub fn create_board(&self) -> (squares: Vec<Square>)
        ensures
            squares@ == all_squares(),
    {
        let mut squares: Vec<Square> = Vec::new();
        let mut x: u8 = 0;
        while x < FIELD_SIZE
            invariant
                x <= FIELD_SIZE,
                squares@.len() == x * FIELD_SIZE,
                forall|i: int| 0 <= i < squares@.len() ==> squares@[i] == all_squares()[i],
            decreases FIELD_SIZE - x,
        {
            let mut y: u8 = 0;
            while y < FIELD_SIZE
                invariant
                    x < FIELD_SIZE,
                    y <= FIELD_SIZE,
                    squares@.len() == x * FIELD_SIZE + y,
                    forall|i: int| 0 <= i < squares@.len() ==> squares@[i] == all_squares()[i],
                decreases FIELD_SIZE - y,
            {
                squares.push(Square { x, y });
                y += 1;
            }
            x += 1;
        }
        squares
    }

    /// Picks the shade in which a square is shown.
    pub fn color_square(&self, square: &Square, hovered: bool, selected: bool, movable: bool) -> (shade:
        SquareShade)
        ensures
            shade == shade_of(*square, hovered, selected, movable),
    {
        if hovered {
            SquareShade::Highlight
        } else if selected {
            SquareShade::Selected
        } else if square.is_white() {
            if movable {
                SquareShade::MovableWhite
            } else {
                SquareShade::White
            }
        } else {
            if movable {
                SquareShade::MovableBlack
            } else {
                SquareShade::Black
            }
        }
    }

    /// Decides what a click leads to. `clicked` is the square under the pointer,
    /// if the pointer is over the board; `movable` holds the squares that the
    /// selected piece may move to. A click on a piece of the side to move selects
    /// it; a click on a movable square asks for the move; any other click, and a
    /// click off the board, drops the selection.
    pub fn select_square(
        &self,
        clicked: Option<Square>,
        pieces: &[Piece],
        movable: &[Square],
        turn: &PlayerTurn,
    ) -> (selection: Selection)
        ensures
            match selection {
                Selection::Piece(index) => clicked matches Some(square) && first_own_piece(
                    pieces@,
                    turn.0,
                    square,
                    index as int,
                ),
                Selection::Move(x, y) => {
                    &&& clicked == Some(Square { x, y })
                    &&& !occupied_by(pieces@, turn.0, x as int, y as int)
                    &&& movable@.contains(Square { x, y })
                },
                Selection::Deselect => clicked matches Some(square) ==> {
                    &&& !occupied_by(pieces@, turn.0, square.x as int, square.y as int)
                    &&& !movable@.contains(square)
                },
            },
    {
        let square: Square = match clicked {
            Some(square) => square,
            None => {
                return Selection::Deselect;
            },
        };
        let mut i: usize = 0;
        while i < pieces.len()
            invariant
                i <= pieces.len(),
                clicked == Some(square),
                forall|j: int|
                    0 <= j < i ==> !((#[trigger] pieces@[j]).color == turn.0 && pieces@[j].stands_on(
                        square.x as int,
                        square.y as int,
                    )),
            decreases pieces.len() - i,
        {
            if pieces[i].x == square.x && pieces[i].y == square.y && pieces[i].color == turn.0 {
                return Selection::Piece(i);
            }
            i += 1;
        }
        let mut k: usize = 0;
        while k < movable.len()
            invariant
                k <= movable.len(),
                clicked == Some(square),
                !occupied_by(pieces@, turn.0, square.x as int, square.y as int),
                forall|j: int| 0 <= j < k ==> movable@[j] != square,
            decreases movable.len() - k,
        {
            if movable[k].x == square.x && movable[k].y == square.y {
                assert(movable@[k as int] == square);
                return Selection::Move(square.x, square.y);
            }
            k += 1;
        }
        Selection::Deselect
    }

    /// Whether a move of `mover` to `target` takes `other`: `other` belongs to
    /// the other side and stands on the target square.
    pub fn takes(&self, mover: &Piece, target: (u8, u8), other: &Piece) -> (taken: bool)
        ensures
            taken == (other.color == mover.color.opposite() && other.stands_on(
                target.0 as int,
                target.1 as int,
            )),
    {
        other.color == mover.color.opposite() && other.x == target.0 && other.y == target.1
    }

    /// Carries out a move of `selected` to `(to_x, to_y)`: the piece stands on
    /// the new square, gains energy if it `takes` a piece there, and the move
    /// passes to the other side. Returns the turn as it goes into the record:
    /// it is played by the side that was to move.
    pub fn move_piece(
        &self,
        selected: &mut Piece,
        turn: &mut PlayerTurn,
        to_x: u8,
        to_y: u8,
        takes: bool,
    ) -> (played: Turn)
        ensures
            played == (Turn {
                color: old(turn).0,
                piece_type: old(selected).piece_type,
                from_x: old(selected).x,
                from_y: old(selected).y,
                to_x,
                to_y,
            }),
            *final(selected) == (Piece {
                x: to_x,
                y: to_y,
                energy: energy_after(old(selected).energy, takes),
                ..*old(selected)
            }),
            final(turn).0 == old(turn).0.opposite(),
    {
        if takes {
            selected.energy = selected.energy.saturating_add(KILL_ENERGY);
        }
        let played = Turn {
            color: turn.0,
            piece_type: selected.piece_type,
            from_x: selected.x,
            from_y: selected.y,
            to_x,
            to_y,
        };
        selected.x = to_x;
        selected.y = to_y;
        turn.change();
        played
    }

    /// The side that has won once `taken` leaves the board: the other side, if
    /// `taken` is a king, and nobody yet otherwise.
    pub fn winner_after(&self, taken: &Piece) -> (winner: Option<PieceColor>)
        ensures
            winner == if taken.piece_type == PieceType::King {
                Some(taken.color.opposite())
            } else {
                None
            },
    {
        if taken.piece_type == PieceType::King {
            Some(taken.color.opposite())
        } else {
            None
        }
    }
}

} // verus!
