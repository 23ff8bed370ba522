//! Pieces and the squares they may move to.
//!
//! The moves are pseudo-legal: they follow each piece's geometry and the
//! occupancy of the board, and take no account of check. The first
//! coordinate, `x`, is the axis along which pawns advance: White towards
//! larger `x`, Black towards smaller.

use vstd::prelude::*;
use crate::history::{last_of, History, Turn};

verus! {

/// Number of ranks and of files.
pub const FIELD_SIZE: u8 = 8;

/// Energy a piece gains when it takes another.
pub const KILL_ENERGY: u8 = 10;

/// The two sides.
#[derive(Clone, Copy, PartialEq, Eq, Debug, Structural)]
pub enum PieceColor {
    White,
    Black,
}

impl PieceColor {
    /// The other side.
    pub open spec fn spec_opposite(&self) -> PieceColor {
        match self {
            PieceColor::White => PieceColor::Black,
            PieceColor::Black => PieceColor::White,
        }
    }

    /// The other side.
    #[verifier::when_used_as_spec(spec_opposite)]
    pub fn opposite(&self) -> (other: PieceColor)
        ensures
            other == self.spec_opposite(),
    {
        match self {
            PieceColor::Black => PieceColor::White,
            PieceColor::White => PieceColor::Black,
        }
    }

    /// The name of this side, as it is shown.
    pub fn name(&self) -> (name: &'static str)
        ensures
            name@ == color_name(*self),
    {
        match self {
            PieceColor::White => "White",
            PieceColor::Black => "Black",
        }
    }

    /// The direction in which this side's pawns advance along `x`.
    pub open spec fn forward(self) -> int {
        match self {
            PieceColor::White => 1,
            PieceColor::Black => -1,
        }
    }

    /// The rank on which this side's pawns start.
    pub open spec fn pawn_rank(self) -> int {
        match self {
            PieceColor::White => 1,
            PieceColor::Black => 6,
        }
    }
}

/// The name of a side.
pub open spec fn color_name(color: PieceColor) -> Seq<char> {
    match color {
        PieceColor::White => "White"@,
        PieceColor::Black => "Black"@,
    }
}

/// The six kinds of piece.
#[derive(Clone, Copy, PartialEq, Eq, Debug, Structural)]
pub enum PieceType {
    King,
    Queen,
    Bishop,
    Knight,
    Rook,
    Pawn,
}

/// A piece on the board. It stands on the square `(x, y)`, with both
/// coordinates below `FIELD_SIZE`. Its `energy` plays no part in where it
/// may move.
#[derive(Clone, Copy, PartialEq, Eq, Debug, Structural)]
pub struct Piece {
    pub color: PieceColor,
    pub piece_type: PieceType,
    pub x: u8,
    pub y: u8,
    pub energy: u8,
}

impl Piece {
    /// The piece stands on a square of the board.
    pub open spec fn on_board(self) -> bool {
        self.x < FIELD_SIZE && self.y < FIELD_SIZE
    }

    /// The piece stands on the square `(x, y)`.
    pub open spec fn stands_on(self, x: int, y: int) -> bool {
        self.x == x && self.y == y
    }
}

/// Some piece of the snapshot stands on `(x, y)`.
pub open spec fn occupied(pieces: Seq<Piece>, x: int, y: int) -> bool {
    exists|i: int| #![trigger pieces[i]] 0 <= i < pieces.len() && pieces[i].stands_on(x, y)
}

/// Some piece of the given colour stands on `(x, y)`.
pub open spec fn occupied_by(pieces: Seq<Piece>, color: PieceColor, x: int, y: int) -> bool {
    exists|i: int|
        #![trigger pieces[i]]
        0 <= i < pieces.len() && pieces[i].color == color && pieces[i].stands_on(x, y)
}

/// No two pieces of the snapshot share a square, and all are on the board.
pub open spec fn well_placed(pieces: Seq<Piece>) -> bool {
    &&& forall|i: int| #![trigger pieces[i]] 0 <= i < pieces.len() ==> pieces[i].on_board()
    &&& forall|i: int, j: int|
        #![trigger pieces[i], pieces[j]]
        0 <= i < j < pieces.len() ==> !pieces[j].stands_on(pieces[i].x as int, pieces[i].y as int)
}

/// The coordinate `delta` steps away from `coord`, if it is on the board.
pub open spec fn offset(coord: int, delta: int) -> Option<u8> {
    if 0 <= coord + delta < FIELD_SIZE {
        Some((coord + delta) as u8)
    } else {
        None
    }
}

/// Moves a coordinate by a signed number of steps; `None` when the result
/// would leave the board on either side.
pub fn checked_offset(coord: u8, delta: i8) -> (moved: Option<u8>)
    ensures
        moved == offset(coord as int, delta as int),
{
    let target: i16 = coord as i16 + delta as i16;
    if 0 <= target && target < FIELD_SIZE as i16 {
        Some(target as u8)
    } else {
        None
    }
}

/// Whether any piece stands on `(x, y)`.
pub fn is_occupied(pieces: &[Piece], x: u8, y: u8) -> (found: bool)
    ensures
        found == occupied(pieces@, x as int, y as int),
{
    let mut i: usize = 0;
    while i < pieces.len()
        invariant
            i <= pieces.len(),
            forall|j: int| 0 <= j < i ==> !pieces@[j].stands_on(x as int, y as int),
        decreases pieces.len() - i,
    {
        if pieces[i].x == x && pieces[i].y == y {
            return true;
        }
        i += 1;
    }
    false
}

/// Whether a piece of the given colour stands on `(x, y)`.
pub fn is_occupied_by(pieces: &[Piece], color: PieceColor, x: u8, y: u8) -> (found: bool)
    ensures
        found == occupied_by(pieces@, color, x as int, y as int),
{
    let mut i: usize = 0;
    while i < pieces.len()
        invariant
            i <= pieces.len(),
            forall|j: int|
                0 <= j < i ==> !(pieces@[j].color == color && pieces@[j].stands_on(
                    x as int,
                    y as int,
                )),
        decreases pieces.len() - i,
    {
        if pieces[i].color == color && pieces[i].x == x && pieces[i].y == y {
            return true;
        }
        i += 1;
    }
    false
}

/// The colour of the first piece of the snapshot that stands on `pos`;
/// `None` if the square is empty. Where no two pieces share a square, it is
/// the colour of the only piece there.
pub fn color_of_square(pos: (u8, u8), pieces: &[Piece]) -> (found: Option<PieceColor>)
    ensures
        found is None <==> !occupied(pieces@, pos.0 as int, pos.1 as int),
        found matches Some(color) ==> occupied_by(pieces@, color, pos.0 as int, pos.1 as int),
        well_placed(pieces@) ==> forall|color: PieceColor| #[trigger]
            occupied_by(pieces@, color, pos.0 as int, pos.1 as int) ==> found == Some(color),
        found matches Some(color) ==> exists|i: int|
            #![trigger pieces@[i]]
            {
                &&& 0 <= i < pieces@.len()
                &&& pieces@[i].stands_on(pos.0 as int, pos.1 as int)
                &&& pieces@[i].color == color
                &&& forall|j: int|
                    0 <= j < i ==> !(#[trigger] pieces@[j]).stands_on(pos.0 as int, pos.1 as int)
            },
{
    let mut i: usize = 0;
    while i < pieces.len()
        invariant
            i <= pieces.len(),
            forall|j: int| 0 <= j < i ==> !pieces@[j].stands_on(pos.0 as int, pos.1 as int),
        decreases pieces.len() - i,
    {
        if pieces[i].x == pos.0 && pieces[i].y == pos.1 {
            return Some(pieces[i].color);
        }
        i += 1;
    }
    None
}

/// Appending in two steps is appending the two parts joined.
proof fn lemma_concat_assoc<A>(a: Seq<A>, b: Seq<A>, c: Seq<A>)
    ensures
        (a + b) + c == a + (b + c),
{
    assert((a + b) + c =~= a + (b + c));
}

/// Where a single step by `(dx, dy)` lands: the square, unless it is off the
/// board or held by a piece of the mover's own colour.
pub open spec fn landing(this: Piece, pieces: Seq<Piece>, dx: int, dy: int) -> Seq<(u8, u8)> {
    match offset(this.x as int, dx) {
        Some(x) => match offset(this.y as int, dy) {
            Some(y) => if occupied_by(pieces, this.color, x as int, y as int) {
                Seq::empty()
            } else {
                seq![(x, y)]
            },
            None => Seq::empty(),
        },
        None => Seq::empty(),
    }
}

/// Lists where a single step by `(dx, dy)` lands.
fn try_move(poss: &mut Vec<(u8, u8)>, this: &Piece, pieces: &[Piece], dx: i8, dy: i8)
    ensures
        final(poss)@ == old(poss)@ + landing(*this, pieces@, dx as int, dy as int),
{
    let x: u8 = match checked_offset(this.x, dx) {
        Some(x) => x,
        None => {
            return ;
        },
    };
    let y: u8 = match checked_offset(this.y, dy) {
        Some(y) => y,
        None => {
            return ;
        },
    };
    if is_occupied_by(pieces, this.color, x, y) {
        return ;
    }
    poss.push((x, y));
}

/// The squares a sliding piece is offered along one ray: for each of the
/// first `reach` steps in direction `(sx, sy)`, where that step lands. A ray
/// is not cut short by a piece standing on it: only the squares held by the
/// mover's own colour are left out, and the squares behind any piece are
/// still offered.
pub open spec fn ray(this: Piece, pieces: Seq<Piece>, sx: int, sy: int, reach: nat) -> Seq<
    (u8, u8),
>
    decreases reach,
{
    if reach == 0 {
        Seq::empty()
    } else {
        ray(this, pieces, sx, sy, (reach - 1) as nat) + landing(
            this,
            pieces,
            sx * reach,
            sy * reach,
        )
    }
}

/// A rook's destinations: the rays towards larger `x`, smaller `x`, larger
/// `y` and smaller `y`, in that order.
pub open spec fn rook_moves(this: Piece, pieces: Seq<Piece>) -> Seq<(u8, u8)> {
    let reach = FIELD_SIZE as nat;
    ray(this, pieces, 1, 0, reach) + ray(this, pieces, -1, 0, reach) + ray(
        this,
        pieces,
        0,
        1,
        reach,
    ) + ray(this, pieces, 0, -1, reach)
}

/// A bishop's destinations: the four diagonal rays.
pub open spec fn bishop_moves(this: Piece, pieces: Seq<Piece>) -> Seq<(u8, u8)> {
    let reach = FIELD_SIZE as nat;
    ray(this, pieces, 1, 1, reach) + ray(this, pieces, 1, -1, reach) + ray(
        this,
        pieces,
        -1,
        -1,
        reach,
    ) + ray(this, pieces, -1, 1, reach)
}

/// A queen's destinations: a rook's, then a bishop's.
pub open spec fn queen_moves(this: Piece, pieces: Seq<Piece>) -> Seq<(u8, u8)> {
    rook_moves(this, pieces) + bishop_moves(this, pieces)
}

/// A knight's destinations: where each of its eight jumps lands.
pub open spec fn knight_moves(this: Piece, pieces: Seq<Piece>) -> Seq<(u8, u8)> {
    landing(this, pieces, 1, 2) + landing(this, pieces, 2, 1) + landing(this, pieces, 2, -1)
        + landing(this, pieces, 1, -2) + landing(this, pieces, -1, -2) + landing(
        this,
        pieces,
        -2,
        -1,
    ) + landing(this, pieces, -2, 1) + landing(this, pieces, -1, 2)
}

/// A king's destinations: where a step to each of the eight neighbouring
/// squares lands, the neighbours taken file by file. Squares that the other
/// side attacks are not left out.
pub open spec fn king_moves(this: Piece, pieces: Seq<Piece>) -> Seq<(u8, u8)> {
    landing(this, pieces, -1, -1) + landing(this, pieces, 0, -1) + landing(this, pieces, 1, -1)
        + landing(this, pieces, -1, 0) + landing(this, pieces, 1, 0) + landing(
        this,
        pieces,
        -1,
        1,
    ) + landing(this, pieces, 0, 1) + landing(this, pieces, 1, 1)
}

/// Walks one ray: `sx` and `sy` give the direction of a step along each
/// axis.
fn try_move_in_line(poss: &mut Vec<(u8, u8)>, this: &Piece, pieces: &[Piece], sx: i8, sy: i8)
    requires
        -1 <= sx <= 1,
        -1 <= sy <= 1,
    ensures
        final(poss)@ == old(poss)@ + ray(
            *this,
            pieces@,
            sx as int,
            sy as int,
            FIELD_SIZE as nat,
        ),
{
    let mut step: u8 = 0;
    let mut dx: i8 = 0;
    let mut dy: i8 = 0;
    while step < FIELD_SIZE
        invariant
            step <= FIELD_SIZE,
            -1 <= sx <= 1,
            -1 <= sy <= 1,
            -step <= dx <= step,
            -step <= dy <= step,
            dx == sx * step,
            dy == sy * step,
            poss@ == old(poss)@ + ray(*this, pieces@, sx as int, sy as int, step as nat),
        decreases FIELD_SIZE - step,
    {
        step += 1;
        dx += sx;
        dy += sy;
        try_move(poss, this, pieces, dx, dy);
        proof {
            assert(sx * step == sx * (step - 1) + sx) by (nonlinear_arith);
            assert(sy * step == sy * (step - 1) + sy) by (nonlinear_arith);
            lemma_concat_assoc(
                old(poss)@,
                ray(*this, pieces@, sx as int, sy as int, (step - 1) as nat),
                landing(*this, pieces@, dx as int, dy as int),
            );
        }
    }
}

/// Lists a rook's destinations.
fn valid_positions_for_rook(poss: &mut Vec<(u8, u8)>, this: &Piece, pieces: &[Piece])
    ensures
        final(poss)@ == old(poss)@ + rook_moves(*this, pieces@),
{
    try_move_in_line(poss, this, pieces, 1, 0);
    try_move_in_line(poss, this, pieces, -1, 0);
    try_move_in_line(poss, this, pieces, 0, 1);
    try_move_in_line(poss, this, pieces, 0, -1);
    proof {
        let reach = FIELD_SIZE as nat;
        let east = ray(*this, pieces@, 1, 0, reach);
        let west = ray(*this, pieces@, -1, 0, reach);
        let north = ray(*this, pieces@, 0, 1, reach);
        let south = ray(*this, pieces@, 0, -1, reach);
        lemma_concat_assoc(old(poss)@, east, west);
        lemma_concat_assoc(old(poss)@, east + west, north);
        lemma_concat_assoc(old(poss)@, east + west + north, south);
    }
}

/// Lists a bishop's destinations.
fn valid_positions_for_bishop(poss: &mut Vec<(u8, u8)>, this: &Piece, pieces: &[Piece])
    ensures
        final(poss)@ == old(poss)@ + bishop_moves(*this, pieces@),
{
    try_move_in_line(poss, this, pieces, 1, 1);
    try_move_in_line(poss, this, pieces, 1, -1);
    try_move_in_line(poss, this, pieces, -1, -1);
    try_move_in_line(poss, this, pieces, -1, 1);
    proof {
        let reach = FIELD_SIZE as nat;
        let first = ray(*this, pieces@, 1, 1, reach);
        let second = ray(*this, pieces@, 1, -1, reach);
        let third = ray(*this, pieces@, -1, -1, reach);
        let fourth = ray(*this, pieces@, -1, 1, reach);
        lemma_concat_assoc(old(poss)@, first, second);
        lemma_concat_assoc(old(poss)@, first + second, third);
        lemma_concat_assoc(old(poss)@, first + second + third, fourth);
    }
}

/// Lists a queen's destinations.
fn valid_positions_for_queen(poss: &mut Vec<(u8, u8)>, this: &Piece, pieces: &[Piece])
    ensures
        final(poss)@ == old(poss)@ + queen_moves(*this, pieces@),
{
    valid_positions_for_rook(poss, this, pieces);
    valid_positions_for_bishop(poss, this, pieces);
    proof {
        lemma_concat_assoc(old(poss)@, rook_moves(*this, pieces@), bishop_moves(*this, pieces@));
    }
}

/// Joins eight parts appended one by one.
proof fn lemma_concat_eight<A>(
    base: Seq<A>,
    a: Seq<A>,
    b: Seq<A>,
    c: Seq<A>,
    d: Seq<A>,
    e: Seq<A>,
    f: Seq<A>,
    g: Seq<A>,
    h: Seq<A>,
)
    ensures
        base + a + b + c + d + e + f + g + h == base + (a + b + c + d + e + f + g + h),
{
    lemma_concat_assoc(base, a, b);
    lemma_concat_assoc(base, a + b, c);
    lemma_concat_assoc(base, a + b + c, d);
    lemma_concat_assoc(base, a + b + c + d, e);
    lemma_concat_assoc(base, a + b + c + d + e, f);
    lemma_concat_assoc(base, a + b + c + d + e + f, g);
    lemma_concat_assoc(base, a + b + c + d + e + f + g, h);
}

/// Lists a knight's destinations.
fn valid_positions_for_knight(poss: &mut Vec<(u8, u8)>, this: &Piece, pieces: &[Piece])
    ensures
        final(poss)@ == old(poss)@ + knight_moves(*this, pieces@),
{
    try_move(poss, this, pieces, 1, 2);
    try_move(poss, this, pieces, 2, 1);
    try_move(poss, this, pieces, 2, -1);
    try_move(poss, this, pieces, 1, -2);
    try_move(poss, this, pieces, -1, -2);
    try_move(poss, this, pieces, -2, -1);
    try_move(poss, this, pieces, -2, 1);
    try_move(poss, this, pieces, -1, 2);
    proof {
        lemma_concat_eight(
            old(poss)@,
            landing(*this, pieces@, 1, 2),
            landing(*this, pieces@, 2, 1),
            landing(*this, pieces@, 2, -1),
            landing(*this, pieces@, 1, -2),
            landing(*this, pieces@, -1, -2),
            landing(*this, pieces@, -2, -1),
            landing(*this, pieces@, -2, 1),
            landing(*this, pieces@, -1, 2),
        );
    }
}

/// Lists a king's destinations.
fn valid_positions_for_king(poss: &mut Vec<(u8, u8)>, this: &Piece, pieces: &[Piece])
    ensures
        final(poss)@ == old(poss)@ + king_moves(*this, pieces@),
{
    try_move(poss, this, pieces, -1, -1);
    try_move(poss, this, pieces, 0, -1);
    try_move(poss, this, pieces, 1, -1);
    try_move(poss, this, pieces, -1, 0);
    try_move(poss, this, pieces, 1, 0);
    try_move(poss, this, pieces, -1, 1);
    try_move(poss, this, pieces, 0, 1);
    try_move(poss, this, pieces, 1, 1);
    proof {
        lemma_concat_eight(
            old(poss)@,
            landing(*this, pieces@, -1, -1),
            landing(*this, pieces@, 0, -1),
            landing(*this, pieces@, 1, -1),
            landing(*this, pieces@, -1, 0),
            landing(*this, pieces@, 1, 0),
            landing(*this, pieces@, -1, 1),
            landing(*this, pieces@, 0, 1),
            landing(*this, pieces@, 1, 1),
        );
    }
}

/// A pawn's advance by `dx` ranks along its file: the square, unless it is
/// off the board or any piece stands on it. Squares in between are not
/// looked at.
pub open spec fn pawn_advance(this: Piece, pieces: Seq<Piece>, dx: int) -> Seq<(u8, u8)> {
    match offset(this.x as int, dx) {
        Some(x) => if occupied(pieces, x as int, this.y as int) {
            Seq::empty()
        } else {
            seq![(x, this.y)]
        },
        None => Seq::empty(),
    }
}

/// A pawn's capture by `(dx, dy)`: the square, if it is on the board and a
/// piece of the other colour stands on it.
pub open spec fn pawn_capture(this: Piece, pieces: Seq<Piece>, dx: int, dy: int) -> Seq<(u8, u8)> {
    match offset(this.x as int, dx) {
        Some(x) => match offset(this.y as int, dy) {
            Some(y) => if occupied_by(pieces, this.color.opposite(), x as int, y as int) {
                seq![(x, y)]
            } else {
                Seq::empty()
            },
            None => Seq::empty(),
        },
        None => Seq::empty(),
    }
}

/// A pawn's advance by two ranks, open to it on its starting rank only.
pub open spec fn pawn_leap(this: Piece, pieces: Seq<Piece>) -> Seq<(u8, u8)> {
    if this.x == this.color.pawn_rank() {
        pawn_advance(this, pieces, 2 * this.color.forward())
    } else {
        Seq::empty()
    }
}

/// The turn `last` lets the pawn `this` take in passing: the other side has
/// just moved a pawn by two ranks, onto the rank of `this` and onto a file
/// next to it.
pub open spec fn passes(this: Piece, last: Turn) -> bool {
    &&& last.color == this.color.opposite()
    &&& last.piece_type == PieceType::Pawn
    &&& (last.to_x - last.from_x == 2 || last.from_x - last.to_x == 2)
    &&& last.to_x == this.x
    &&& (last.to_y - this.y == 1 || this.y - last.to_y == 1)
}

/// The square a pawn reaches by taking in passing: one rank ahead, on the
/// file of the pawn that has just passed. Who stands on that square plays no
/// part.
pub open spec fn en_passant(this: Piece, last: Option<Turn>) -> Seq<(u8, u8)> {
    match last {
        Some(turn) => if passes(this, turn) && turn.to_y < FIELD_SIZE {
            match offset(this.x as int, this.color.forward()) {
                Some(x) => seq![(x, turn.to_y)],
                None => Seq::empty(),
            }
        } else {
            Seq::empty()
        },
        None => Seq::empty(),
    }
}

/// A pawn's destinations, in the order in which they are listed: one rank
/// ahead, the two captures (smaller file first), two ranks ahead from the
/// starting rank, and the capture in passing.
pub open spec fn pawn_moves(this: Piece, pieces: Seq<Piece>, last: Option<Turn>) -> Seq<(u8, u8)> {
    let ahead = this.color.forward();
    pawn_advance(this, pieces, ahead) + pawn_capture(this, pieces, ahead, -1) + pawn_capture(
        this,
        pieces,
        ahead,
        1,
    ) + pawn_leap(this, pieces) + en_passant(this, last)
}

/// Lists a pawn's advance by `dx` ranks, if the square is free.
fn try_peace_move_pawn(poss: &mut Vec<(u8, u8)>, this: &Piece, pieces: &[Piece], dx: i8)
    ensures
        final(poss)@ == old(poss)@ + pawn_advance(*this, pieces@, dx as int),
{
    let x: u8 = match checked_offset(this.x, dx) {
        Some(x) => x,
        None => {
            return ;
        },
    };
    if is_occupied(pieces, x, this.y) {
        return ;
    }
    poss.push((x, this.y));
}

/// Lists a pawn's capture by `(dx, dy)`, if there is a piece to take.
fn try_aggr_move_pawn_part(
    poss: &mut Vec<(u8, u8)>,
    this: &Piece,
    pieces: &[Piece],
    dx: i8,
    dy: i8,
)
    ensures
        final(poss)@ == old(poss)@ + pawn_capture(*this, pieces@, dx as int, dy as int),
{
    let x: u8 = match checked_offset(this.x, dx) {
        Some(x) => x,
        None => {
            return ;
        },
    };
    let y: u8 = match checked_offset(this.y, dy) {
        Some(y) => y,
        None => {
            return ;
        },
    };
    if !is_occupied_by(pieces, this.color.opposite(), x, y) {
        return ;
    }
    poss.push((x, y));
}

/// Lists a pawn's captures on the two files next to it.
fn try_aggr_move_pawn(poss: &mut Vec<(u8, u8)>, this: &Piece, pieces: &[Piece], dx: i8)
    ensures
        final(poss)@ == old(poss)@ + pawn_capture(*this, pieces@, dx as int, -1) + pawn_capture(
            *this,
            pieces@,
            dx as int,
            1,
        ),
{
    try_aggr_move_pawn_part(poss, this, pieces, dx, -1);
    try_aggr_move_pawn_part(poss, this, pieces, dx, 1);
}

/// Whether `last` lets the pawn `this` take in passing.
fn is_passed_by(this: &Piece, last: &Turn) -> (passed: bool)
    ensures
        passed == passes(*this, *last),
{
    if last.color.opposite() != this.color {
        return false;
    }
    if last.piece_type != PieceType::Pawn {
        return false;
    }
    let ranks: u8 = if last.to_x >= last.from_x {
        last.to_x - last.from_x
    } else {
        last.from_x - last.to_x
    };
    if ranks != 2 {
        return false;
    }
    if last.to_x != this.x {
        return false;
    }
    let files: u8 = if last.to_y >= this.y {
        last.to_y - this.y
    } else {
        this.y - last.to_y
    };
    files == 1
}

/// Lists the capture in passing, if the last turn allows one.
fn try_en_passant(poss: &mut Vec<(u8, u8)>, this: &Piece, history: &History)
    ensures
        final(poss)@ == old(poss)@ + en_passant(*this, last_of(history@)),
{
    if let Some(last_turn) = history.last() {
        if is_passed_by(this, &last_turn) && last_turn.to_y < FIELD_SIZE {
            let ahead: i8 = if this.color == PieceColor::White {
                1
            } else {
                -1
            };
            if let Some(x) = checked_offset(this.x, ahead) {
                poss.push((x, last_turn.to_y));
            }
        }
    }
}

/// Lists the advance by two ranks, for a pawn on its starting rank.
fn try_first_move_pawn(poss: &mut Vec<(u8, u8)>, this: &Piece, pieces: &[Piece])
    ensures
        final(poss)@ == old(poss)@ + pawn_leap(*this, pieces@),
{
    if this.color == PieceColor::White {
        if this.x == 1 {
            try_peace_move_pawn(poss, this, pieces, 2);
        }
    } else {
        if this.x == 6 {
            try_peace_move_pawn(poss, this, pieces, -2);
        }
    }
}

/// Lists a pawn's destinations.
fn valid_positions_for_pawn(
    poss: &mut Vec<(u8, u8)>,
    this: &Piece,
    pieces: &[Piece],
    history: &History,
)
    ensures
        final(poss)@ == old(poss)@ + pawn_moves(*this, pieces@, last_of(history@)),
{
    let multiplier: i8 = if this.color == PieceColor::White {
        1
    } else {
        -1
    };
    try_peace_move_pawn(poss, this, pieces, multiplier);
    try_aggr_move_pawn(poss, this, pieces, multiplier);
    try_first_move_pawn(poss, this, pieces);
    try_en_passant(poss, this, history);
    proof {
        let ahead = this.color.forward();
        let one = pawn_advance(*this, pieces@, ahead);
        let left = pawn_capture(*this, pieces@, ahead, -1);
        let right = pawn_capture(*this, pieces@, ahead, 1);
        let two = pawn_leap(*this, pieces@);
        let passing = en_passant(*this, last_of(history@));
        lemma_concat_assoc(old(poss)@, one, left);
        lemma_concat_assoc(old(poss)@, one + left, right);
        lemma_concat_assoc(old(poss)@, one + left + right, two);
        lemma_concat_assoc(old(poss)@, one + left + right + two, passing);
    }
}

impl Piece {
    /// The squares this piece may move to, in the order in which they are
    /// listed, given the pieces now on the board and the last turn played.
    /// The last turn matters to pawns only.
    pub open spec fn destinations(self, pieces: Seq<Piece>, last: Option<Turn>) -> Seq<(u8, u8)> {
        match self.piece_type {
            PieceType::King => king_moves(self, pieces),
            PieceType::Rook => rook_moves(self, pieces),
            PieceType::Bishop => bishop_moves(self, pieces),
            PieceType::Queen => queen_moves(self, pieces),
            PieceType::Knight => knight_moves(self, pieces),
            PieceType::Pawn => pawn_moves(self, pieces, last),
        }
    }

    /// Whether this piece may move to `target`: no piece of its own colour
    /// stands there, and the square is among its destinations.
    pub open spec fn may_move_to(self, target: (u8, u8), pieces: Seq<Piece>, last: Option<Turn>) -> bool {
        &&& !occupied_by(pieces, self.color, target.0 as int, target.1 as int)
        &&& self.destinations(pieces, last).contains(target)
    }

    /// Lists the squares this piece may move to. Nothing is removed from the
    /// list, so a square may be listed twice. Of `history` only the last
    /// turn is read, and only for a pawn's capture in passing.
    pub fn valid_positions(&self, pieces: &[Piece], history: &History) -> (positions: Vec<(u8, u8)>)
        ensures
            positions@ == self.destinations(pieces@, last_of(history@)),
    {
        let mut poss: Vec<(u8, u8)> = Vec::new();
        match self.piece_type {
            PieceType::King => {
                valid_positions_for_king(&mut poss, self, pieces);
            },
            PieceType::Rook => {
                valid_positions_for_rook(&mut poss, self, pieces);
            },
            PieceType::Bishop => {
                valid_positions_for_bishop(&mut poss, self, pieces);
            },
            PieceType::Queen => {
                valid_positions_for_queen(&mut poss, self, pieces);
            },
            PieceType::Knight => {
                valid_positions_for_knight(&mut poss, self, pieces);
            },
            PieceType::Pawn => {
                valid_positions_for_pawn(&mut poss, self, pieces, history);
            },
        }
        poss
    }

    /// Decides whether this piece may move to `new_position`. A square on
    /// which a piece of the mover's own colour stands is never a valid
    /// target, whatever the geometry says.
    pub fn is_move_valid(&self, new_position: (u8, u8), pieces: &[Piece], history: &History) -> (valid: bool)
        ensures
            valid == self.may_move_to(new_position, pieces@, last_of(history@)),
            occupied_by(pieces@, self.color, new_position.0 as int, new_position.1 as int)
                ==> !valid,
    {
        if is_occupied_by(pieces, self.color, new_position.0, new_position.1) {
            return false;
        }
        let positions: Vec<(u8, u8)> = self.valid_positions(pieces, history);
        contains_square(&positions, new_position)
    }
}

/// Whether `square` is one of `positions`.
pub fn contains_square(positions: &Vec<(u8, u8)>, square: (u8, u8)) -> (found: bool)
    ensures
        found == positions@.contains(square),
{
    let mut i: usize = 0;
    while i < positions.len()
        invariant
            i <= positions.len(),
            forall|j: int| 0 <= j < i ==> positions@[j] != square,
        decreases positions.len() - i,
    {
        if positions[i].0 == square.0 && positions[i].1 == square.1 {
            return true;
        }
        i += 1;
    }
    false
}

} // verus!
