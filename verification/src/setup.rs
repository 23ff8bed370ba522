//! The position at the start of a game.

use vstd::prelude::*;
use crate::pieces::{well_placed, Piece, PieceColor, PieceType, FIELD_SIZE};

verus! {

/// Number of pieces on the board at the start of a game.
pub const PIECE_COUNT: usize = 32;

/// The piece that starts on the given file of a side's back rank: rook,
/// knight, bishop, queen, king, bishop, knight, rook.
pub open spec fn back_rank(file: int) -> PieceType {
    if file == 0 || file == 7 {
        PieceType::Rook
    } else if file == 1 || file == 6 {
        PieceType::Knight
    } else if file == 2 || file == 5 {
        PieceType::Bishop
    } else if file == 3 {
        PieceType::Queen
    } else {
        PieceType::King
    }
}

/// The `index`-th piece of the starting position. White's back rank comes
/// first, then White's pawns, Black's back rank and Black's pawns, each from
/// file 0 to file 7. White's back rank is rank 0, Black's is rank 7.
pub open spec fn starting_piece(index: int) -> Piece {
    let file = index % 8;
    Piece {
        color: if index < 16 {
            PieceColor::White
        } else {
            PieceColor::Black
        },
        piece_type: if index % 16 < 8 {
            back_rank(file)
        } else {
            PieceType::Pawn
        },
        x: if index < 8 {
            0u8
        } else if index < 16 {
            1u8
        } else if index < 24 {
            7u8
        } else {
            6u8
        },
        y: file as u8,
        energy: 0,
    }
}

/// The pieces of the starting position, in their order.
pub open spec fn starting_position() -> Seq<Piece> {
    Seq::new(PIECE_COUNT as nat, |index: int| starting_piece(index))
}

/// The piece that starts on `file` of a back rank.
fn back_rank_piece(file: u8) -> (piece_type: PieceType)
    ensures
        piece_type == back_rank(file as int),
{
    if file == 0 || file == 7 {
        PieceType::Rook
    } else if file == 1 || file == 6 {
        PieceType::Knight
    } else if file == 2 || file == 5 {
        PieceType::Bishop
    } else if file == 3 {
        PieceType::Queen
    } else {
        PieceType::King
    }
}

/// Appends one rank of the starting position: the back rank, or eight pawns.
fn push_rank(pieces: &mut Vec<Piece>, color: PieceColor, x: u8, pawns: bool)
    requires
        old(pieces)@.len() % 8 == 0,
        old(pieces)@.len() + 8 <= PIECE_COUNT,
        forall|i: int| 0 <= i < old(pieces)@.len() ==> old(pieces)@[i] == starting_piece(i),
        starting_piece(old(pieces)@.len() as int).color == color,
        starting_piece(old(pieces)@.len() as int).x == x,
        pawns == (starting_piece(old(pieces)@.len() as int).piece_type == PieceType::Pawn),
    ensures
        final(pieces)@.len() == old(pieces)@.len() + 8,
        forall|i: int| 0 <= i < final(pieces)@.len() ==> final(pieces)@[i] == starting_piece(i),
{
    let ghost base = pieces@.len() as int;
    let mut file: u8 = 0;
    while file < FIELD_SIZE
        invariant
            file <= FIELD_SIZE,
            base % 8 == 0,
            0 <= base <= PIECE_COUNT - 8,
            pieces@.len() == base + file,
            starting_piece(base).color == color,
            starting_piece(base).x == x,
            pawns == (starting_piece(base).piece_type == PieceType::Pawn),
            forall|i: int| 0 <= i < pieces@.len() ==> pieces@[i] == starting_piece(i),
        decreases FIELD_SIZE - file,
    {
        let piece_type: PieceType = if pawns {
            PieceType::Pawn
        } else {
            back_rank_piece(file)
        };
        pieces.push(Piece { color, piece_type, x, y: file, energy: 0 });
        file += 1;
    }
}

/// Sets the pieces up.
#[derive(Clone, Copy, Debug)]
pub struct PiecesPlugin;

impl PiecesPlugin {
    /// The pieces a game starts with.
    pub fn create_pieces(&self) -> (pieces: Vec<Piece>)
        ensures
            pieces@ == starting_position(),
            well_placed(pieces@),
    {
        let mut pieces: Vec<Piece> = Vec::new();
        push_rank(&mut pieces, PieceColor::White, 0, false);
        push_rank(&mut pieces, PieceColor::White, 1, true);
        push_rank(&mut pieces, PieceColor::Black, 7, false);
        push_rank(&mut pieces, PieceColor::Black, 6, true);
        proof {
            lemma_starting_position_well_placed();
        }
        pieces
    }
}

/// At the start every piece stands on the board and no two share a square.
pub proof fn lemma_starting_position_well_placed()
    ensures
        well_placed(starting_position()),
{
    let pieces = starting_position();
    assert forall|i: int, j: int| #![trigger pieces[i], pieces[j]] 0 <= i < j < pieces.len() implies !pieces[j].stands_on(
        pieces[i].x as int,
        pieces[i].y as int,
    ) by {
        if pieces[i].x == pieces[j].x {
            assert(i / 8 == j / 8);
            assert(i % 8 != j % 8);
        }
    }
}

} // verus!
