//! General facts about the destinations of a piece, proved from their
//! definition.

use vstd::prelude::*;
use crate::history::Turn;
use crate::pieces::{
    bishop_moves, en_passant, landing, occupied, occupied_by, offset, passes, pawn_advance,
    pawn_capture, pawn_leap, ray, rook_moves, Piece, PieceType, FIELD_SIZE,
};

verus! {

/// The square is on the board and free of the mover's own colour: what every
/// step of a king, a knight or a sliding piece asks of its target.
pub open spec fn open_to(this: Piece, pieces: Seq<Piece>, square: (u8, u8)) -> bool {
    &&& square.0 < FIELD_SIZE
    &&& square.1 < FIELD_SIZE
    &&& !occupied_by(pieces, this.color, square.0 as int, square.1 as int)
}

/// The point `steps` steps from where `this` stands, in direction `(sx, sy)`.
pub open spec fn along(this: Piece, sx: int, sy: int, steps: int) -> (int, int) {
    (this.x + sx * steps, this.y + sy * steps)
}

/// A jump of a knight: one step along one axis and two along the other.
pub open spec fn knight_jump(dx: int, dy: int) -> bool {
    ||| (dx == 1 || dx == -1) && (dy == 2 || dy == -2)
    ||| (dx == 2 || dx == -2) && (dy == 1 || dy == -1)
}

/// The target lies on the rank or the file of the mover, one to eight
/// squares away.
pub open spec fn straight(dx: int, dy: int) -> bool {
    ||| dy == 0 && (1 <= dx <= FIELD_SIZE || 1 <= -dx <= FIELD_SIZE)
    ||| dx == 0 && (1 <= dy <= FIELD_SIZE || 1 <= -dy <= FIELD_SIZE)
}

/// The target lies on a diagonal of the mover, one to eight squares away.
pub open spec fn diagonal(dx: int, dy: int) -> bool {
    &&& dx == dy || dx == -dy
    &&& 1 <= dx <= FIELD_SIZE || 1 <= -dx <= FIELD_SIZE
}

/// The target is next to the mover, along a line or a diagonal.
pub open spec fn king_step(dx: int, dy: int) -> bool {
    &&& -1 <= dx <= 1
    &&& -1 <= dy <= 1
    &&& !(dx == 0 && dy == 0)
}

/// The number of steps that a coordinate can take in direction `step`
/// before it leaves the board; along an axis on which it does not move, the
/// length of a ray.
pub open spec fn room(coord: int, step: int) -> int {
    if step > 0 {
        FIELD_SIZE - 1 - coord
    } else if step < 0 {
        coord
    } else {
        FIELD_SIZE as int
    }
}

/// A value is in two sequences joined exactly if it is in one of them.
proof fn lemma_contains_concat<A>(a: Seq<A>, b: Seq<A>, value: A)
    ensures
        (a + b).contains(value) <==> a.contains(value) || b.contains(value),
{
    if a.contains(value) {
        let i = choose|i: int| 0 <= i < a.len() && a[i] == value;
        assert((a + b)[i] == value);
    }
    if b.contains(value) {
        let i = choose|i: int| 0 <= i < b.len() && b[i] == value;
        assert((a + b)[a.len() + i] == value);
    }
    if (a + b).contains(value) {
        let i = choose|i: int| 0 <= i < (a + b).len() && (a + b)[i] == value;
        if i < a.len() {
            assert(a[i] == value);
        } else {
            assert(b[i - a.len()] == value);
        }
    }
}

/// The only member of a sequence of one value is that value.
proof fn lemma_contains_single<A>(only: A, value: A)
    ensures
        seq![only].contains(value) <==> only == value,
{
    if only == value {
        assert(seq![only][0] == value);
    }
}

/// Nothing is in the empty sequence.
proof fn lemma_contains_empty<A>(value: A)
    ensures
        !Seq::<A>::empty().contains(value),
{
}

/// What a single step offers: the square `(dx, dy)` away, if it is on the
/// board and no piece of the mover's colour stands on it.
pub proof fn lemma_landing_member(
    this: Piece,
    pieces: Seq<Piece>,
    dx: int,
    dy: int,
    square: (u8, u8),
)
    ensures
        landing(this, pieces, dx, dy).contains(square) <==> {
            &&& square.0 == this.x + dx
            &&& square.1 == this.y + dy
            &&& open_to(this, pieces, square)
        },
{
    match offset(this.x as int, dx) {
        Some(x) => match offset(this.y as int, dy) {
            Some(y) => {
                if occupied_by(pieces, this.color, x as int, y as int) {
                    lemma_contains_empty(square);
                } else {
                    lemma_contains_single((x, y), square);
                }
            },
            None => {
                lemma_contains_empty(square);
            },
        },
        None => {
            lemma_contains_empty(square);
        },
    }
}

/// A ray offers exactly the squares open to the mover that lie one to
/// `reach` steps along it. No piece on the way hides the squares behind it.
pub proof fn lemma_ray_member(
    this: Piece,
    pieces: Seq<Piece>,
    sx: int,
    sy: int,
    reach: nat,
    square: (u8, u8),
)
    ensures
        ray(this, pieces, sx, sy, reach).contains(square) <==> open_to(this, pieces, square)
            && exists|steps: int|
            1 <= steps <= reach && #[trigger] along(this, sx, sy, steps) == (
                square.0 as int,
                square.1 as int,
            ),
    decreases reach,
{
    let target = (square.0 as int, square.1 as int);
    if reach == 0 {
        lemma_contains_empty(square);
    } else {
        let before = ray(this, pieces, sx, sy, (reach - 1) as nat);
        let last = landing(this, pieces, sx * reach, sy * reach);
        lemma_ray_member(this, pieces, sx, sy, (reach - 1) as nat, square);
        lemma_landing_member(this, pieces, sx * reach, sy * reach, square);
        lemma_contains_concat(before, last, square);
        if last.contains(square) {
            assert(along(this, sx, sy, reach as int) == target);
        }
        if open_to(this, pieces, square) && exists|steps: int|
            1 <= steps <= reach && #[trigger] along(this, sx, sy, steps) == target {
            let steps = choose|steps: int|
                1 <= steps <= reach && #[trigger] along(this, sx, sy, steps) == target;
            if steps < reach {
                assert(before.contains(square));
            } else {
                assert(last.contains(square));
            }
        }
    }
}

/// Membership in the four rays that start in one pair of directions and
/// their opposites.
proof fn lemma_four_rays(
    this: Piece,
    pieces: Seq<Piece>,
    first: (int, int),
    second: (int, int),
    third: (int, int),
    fourth: (int, int),
    square: (u8, u8),
)
    ensures
        (ray(this, pieces, first.0, first.1, FIELD_SIZE as nat) + ray(
            this,
            pieces,
            second.0,
            second.1,
            FIELD_SIZE as nat,
        ) + ray(this, pieces, third.0, third.1, FIELD_SIZE as nat) + ray(
            this,
            pieces,
            fourth.0,
            fourth.1,
            FIELD_SIZE as nat,
        )).contains(square) <==> {
            ||| ray(this, pieces, first.0, first.1, FIELD_SIZE as nat).contains(square)
            ||| ray(this, pieces, second.0, second.1, FIELD_SIZE as nat).contains(square)
            ||| ray(this, pieces, third.0, third.1, FIELD_SIZE as nat).contains(square)
            ||| ray(this, pieces, fourth.0, fourth.1, FIELD_SIZE as nat).contains(square)
        },
{
    let a = ray(this, pieces, first.0, first.1, FIELD_SIZE as nat);
    let b = ray(this, pieces, second.0, second.1, FIELD_SIZE as nat);
    let c = ray(this, pieces, third.0, third.1, FIELD_SIZE as nat);
    let d = ray(this, pieces, fourth.0, fourth.1, FIELD_SIZE as nat);
    lemma_contains_concat(a, b, square);
    lemma_contains_concat(a + b, c, square);
    lemma_contains_concat(a + b + c, d, square);
}

/// A square lies on the ray in direction `(sx, sy)` exactly if its distance
/// from the mover is a number of steps from one to eight in that direction.
proof fn lemma_ray_reaches(
    this: Piece,
    pieces: Seq<Piece>,
    sx: int,
    sy: int,
    square: (u8, u8),
)
    requires
        -1 <= sx <= 1,
        -1 <= sy <= 1,
        sx != 0 || sy != 0,
    ensures
        ray(this, pieces, sx, sy, FIELD_SIZE as nat).contains(square) <==> {
            let dx = square.0 - this.x;
            let dy = square.1 - this.y;
            let steps = if sx != 0 {
                sx * dx
            } else {
                sy * dy
            };
            &&& open_to(this, pieces, square)
            &&& 1 <= steps <= FIELD_SIZE
            &&& dx == sx * steps
            &&& dy == sy * steps
        },
{
    let target = (square.0 as int, square.1 as int);
    let dx = square.0 - this.x;
    let dy = square.1 - this.y;
    let count = if sx != 0 {
        sx * dx
    } else {
        sy * dy
    };
    lemma_ray_member(this, pieces, sx, sy, FIELD_SIZE as nat, square);
    if ray(this, pieces, sx, sy, FIELD_SIZE as nat).contains(square) {
        let steps = choose|steps: int|
            1 <= steps <= FIELD_SIZE && #[trigger] along(this, sx, sy, steps) == target;
        assert(dx == sx * steps && dy == sy * steps);
        assert(sx != 0 ==> sx * (sx * steps) == steps) by (nonlinear_arith)
            requires
                -1 <= sx <= 1,
        ;
        assert(sy != 0 ==> sy * (sy * steps) == steps) by (nonlinear_arith)
            requires
                -1 <= sy <= 1,
        ;
        assert(count == steps);
    }
    if open_to(this, pieces, square) && 1 <= count <= FIELD_SIZE && dx == sx * count && dy == sy
        * count {
        assert(along(this, sx, sy, count) == target);
    }
}

/// A rook is offered exactly the squares open to it on its rank and its
/// file.
pub proof fn lemma_rook_destinations(
    this: Piece,
    pieces: Seq<Piece>,
    last: Option<Turn>,
    square: (u8, u8),
)
    requires
        this.piece_type == PieceType::Rook,
    ensures
        this.destinations(pieces, last).contains(square) <==> open_to(this, pieces, square)
            && straight(square.0 - this.x, square.1 - this.y),
{
    lemma_straight_rays(this, pieces, square);
}

/// A bishop is offered exactly the squares open to it on its diagonals.
pub proof fn lemma_bishop_destinations(
    this: Piece,
    pieces: Seq<Piece>,
    last: Option<Turn>,
    square: (u8, u8),
)
    requires
        this.piece_type == PieceType::Bishop,
    ensures
        this.destinations(pieces, last).contains(square) <==> open_to(this, pieces, square)
            && diagonal(square.0 - this.x, square.1 - this.y),
{
    lemma_diagonal_rays(this, pieces, square);
}

/// A queen is offered exactly the squares open to it on its rank, its file
/// and its diagonals.
pub proof fn lemma_queen_destinations(
    this: Piece,
    pieces: Seq<Piece>,
    last: Option<Turn>,
    square: (u8, u8),
)
    requires
        this.piece_type == PieceType::Queen,
    ensures
        this.destinations(pieces, last).contains(square) <==> open_to(this, pieces, square) && (
        straight(square.0 - this.x, square.1 - this.y) || diagonal(
            square.0 - this.x,
            square.1 - this.y,
        )),
{
    lemma_straight_rays(this, pieces, square);
    lemma_diagonal_rays(this, pieces, square);
    lemma_contains_concat(rook_moves(this, pieces), bishop_moves(this, pieces), square);
}

/// What the four rays of a rook hold.
proof fn lemma_straight_rays(this: Piece, pieces: Seq<Piece>, square: (u8, u8))
    ensures
        rook_moves(this, pieces).contains(square) <==> open_to(this, pieces, square) && straight(
            square.0 - this.x,
            square.1 - this.y,
        ),
{
    lemma_four_rays(this, pieces, (1, 0), (-1, 0), (0, 1), (0, -1), square);
    lemma_ray_reaches(this, pieces, 1, 0, square);
    lemma_ray_reaches(this, pieces, -1, 0, square);
    lemma_ray_reaches(this, pieces, 0, 1, square);
    lemma_ray_reaches(this, pieces, 0, -1, square);
}

/// What the four rays of a bishop hold.
proof fn lemma_diagonal_rays(this: Piece, pieces: Seq<Piece>, square: (u8, u8))
    ensures
        bishop_moves(this, pieces).contains(square) <==> open_to(this, pieces, square)
            && diagonal(square.0 - this.x, square.1 - this.y),
{
    lemma_four_rays(this, pieces, (1, 1), (1, -1), (-1, -1), (-1, 1), square);
    lemma_ray_reaches(this, pieces, 1, 1, square);
    lemma_ray_reaches(this, pieces, 1, -1, square);
    lemma_ray_reaches(this, pieces, -1, -1, square);
    lemma_ray_reaches(this, pieces, -1, 1, square);
}

/// A king is offered exactly the squares open to it among its neighbours.
pub proof fn lemma_king_destinations(
    this: Piece,
    pieces: Seq<Piece>,
    last: Option<Turn>,
    square: (u8, u8),
)
    requires
        this.piece_type == PieceType::King,
    ensures
        this.destinations(pieces, last).contains(square) <==> open_to(this, pieces, square)
            && king_step(square.0 - this.x, square.1 - this.y),
{
    let a = landing(this, pieces, -1, -1);
    let b = landing(this, pieces, 0, -1);
    let c = landing(this, pieces, 1, -1);
    let d = landing(this, pieces, -1, 0);
    let e = landing(this, pieces, 1, 0);
    let f = landing(this, pieces, -1, 1);
    let g = landing(this, pieces, 0, 1);
    let h = landing(this, pieces, 1, 1);
    lemma_contains_concat(a, b, square);
    lemma_contains_concat(a + b, c, square);
    lemma_contains_concat(a + b + c, d, square);
    lemma_contains_concat(a + b + c + d, e, square);
    lemma_contains_concat(a + b + c + d + e, f, square);
    lemma_contains_concat(a + b + c + d + e + f, g, square);
    lemma_contains_concat(a + b + c + d + e + f + g, h, square);
    lemma_landing_member(this, pieces, -1, -1, square);
    lemma_landing_member(this, pieces, 0, -1, square);
    lemma_landing_member(this, pieces, 1, -1, square);
    lemma_landing_member(this, pieces, -1, 0, square);
    lemma_landing_member(this, pieces, 1, 0, square);
    lemma_landing_member(this, pieces, -1, 1, square);
    lemma_landing_member(this, pieces, 0, 1, square);
    lemma_landing_member(this, pieces, 1, 1, square);
}

/// A knight is offered exactly the squares that are a knight's jump away,
/// on the board and not held by a piece of its own colour.
pub proof fn lemma_knight_destinations(
    this: Piece,
    pieces: Seq<Piece>,
    last: Option<Turn>,
    square: (u8, u8),
)
    requires
        this.piece_type == PieceType::Knight,
    ensures
        this.destinations(pieces, last).contains(square) <==> open_to(this, pieces, square)
            && knight_jump(square.0 - this.x, square.1 - this.y),
{
    let a = landing(this, pieces, 1, 2);
    let b = landing(this, pieces, 2, 1);
    let c = landing(this, pieces, 2, -1);
    let d = landing(this, pieces, 1, -2);
    let e = landing(this, pieces, -1, -2);
    let f = landing(this, pieces, -2, -1);
    let g = landing(this, pieces, -2, 1);
    let h = landing(this, pieces, -1, 2);
    lemma_contains_concat(a, b, square);
    lemma_contains_concat(a + b, c, square);
    lemma_contains_concat(a + b + c, d, square);
    lemma_contains_concat(a + b + c + d, e, square);
    lemma_contains_concat(a + b + c + d + e, f, square);
    lemma_contains_concat(a + b + c + d + e + f, g, square);
    lemma_contains_concat(a + b + c + d + e + f + g, h, square);
    lemma_landing_member(this, pieces, 1, 2, square);
    lemma_landing_member(this, pieces, 2, 1, square);
    lemma_landing_member(this, pieces, 2, -1, square);
    lemma_landing_member(this, pieces, 1, -2, square);
    lemma_landing_member(this, pieces, -1, -2, square);
    lemma_landing_member(this, pieces, -2, -1, square);
    lemma_landing_member(this, pieces, -2, 1, square);
    lemma_landing_member(this, pieces, -1, 2, square);
}

/// Every square offered to a knight is on the board and a knight's jump
/// away from it.
pub proof fn lemma_knight_candidates_are_jumps(
    this: Piece,
    pieces: Seq<Piece>,
    last: Option<Turn>,
)
    requires
        this.piece_type == PieceType::Knight,
    ensures
        this.destinations(pieces, last).len() <= 8,
        forall|i: int|
            0 <= i < this.destinations(pieces, last).len() ==> {
                let square = #[trigger] this.destinations(pieces, last)[i];
                &&& knight_jump(square.0 - this.x, square.1 - this.y)
                &&& square.0 < FIELD_SIZE
                &&& square.1 < FIELD_SIZE
            },
{
    let all = this.destinations(pieces, last);
    assert forall|i: int| 0 <= i < all.len() implies {
        let square = #[trigger] all[i];
        &&& knight_jump(square.0 - this.x, square.1 - this.y)
        &&& square.0 < FIELD_SIZE
        &&& square.1 < FIELD_SIZE
    } by {
        assert(all.contains(all[i]));
        lemma_knight_destinations(this, pieces, last, all[i]);
    }
}

/// A knight that stands at least two squares from every edge, with none of
/// the eight squares it jumps to held by its own colour, is offered exactly
/// eight squares, each on the board and a knight's jump away.
pub proof fn lemma_knight_away_from_edges(this: Piece, pieces: Seq<Piece>, last: Option<Turn>)
    requires
        this.piece_type == PieceType::Knight,
        2 <= this.x < FIELD_SIZE - 2,
        2 <= this.y < FIELD_SIZE - 2,
        forall|dx: int, dy: int|
            knight_jump(dx, dy) ==> !#[trigger] occupied_by(
                pieces,
                this.color,
                this.x + dx,
                this.y + dy,
            ),
    ensures
        this.destinations(pieces, last).len() == 8,
        forall|i: int|
            0 <= i < 8 ==> {
                let square = #[trigger] this.destinations(pieces, last)[i];
                &&& knight_jump(square.0 - this.x, square.1 - this.y)
                &&& square.0 < FIELD_SIZE
                &&& square.1 < FIELD_SIZE
            },
{
    assert(knight_jump(1, 2) && knight_jump(2, 1) && knight_jump(2, -1) && knight_jump(1, -2));
    assert(knight_jump(-1, -2) && knight_jump(-2, -1) && knight_jump(-2, 1) && knight_jump(-1, 2));
    assert(landing(this, pieces, 1, 2).len() == 1);
    assert(landing(this, pieces, 2, 1).len() == 1);
    assert(landing(this, pieces, 2, -1).len() == 1);
    assert(landing(this, pieces, 1, -2).len() == 1);
    assert(landing(this, pieces, -1, -2).len() == 1);
    assert(landing(this, pieces, -2, -1).len() == 1);
    assert(landing(this, pieces, -2, 1).len() == 1);
    assert(landing(this, pieces, -1, 2).len() == 1);
    lemma_knight_candidates_are_jumps(this, pieces, last);
}

/// A pawn on its starting rank, with the two squares ahead of it on its
/// file free, is offered both of them.
pub proof fn lemma_pawn_start_free(this: Piece, pieces: Seq<Piece>, last: Option<Turn>)
    requires
        this.piece_type == PieceType::Pawn,
        this.x == this.color.pawn_rank(),
        this.y < FIELD_SIZE,
        !occupied(pieces, this.x + this.color.forward(), this.y as int),
        !occupied(pieces, this.x + 2 * this.color.forward(), this.y as int),
    ensures
        this.destinations(pieces, last).contains(
            ((this.x + this.color.forward()) as u8, this.y),
        ),
        this.destinations(pieces, last).contains(
            ((this.x + 2 * this.color.forward()) as u8, this.y),
        ),
{
    let ahead = this.color.forward();
    lemma_pawn_destinations(this, pieces, last, ((this.x + ahead) as u8, this.y));
    lemma_pawn_destinations(this, pieces, last, ((this.x + 2 * ahead) as u8, this.y));
}

/// A pawn on its starting rank with a piece on the square just ahead of it
/// is not offered that square. The square two ranks ahead is still offered
/// exactly if it is free: the piece in between does not block it.
pub proof fn lemma_pawn_start_blocked(this: Piece, pieces: Seq<Piece>, last: Option<Turn>)
    requires
        this.piece_type == PieceType::Pawn,
        this.x == this.color.pawn_rank(),
        this.y < FIELD_SIZE,
        occupied(pieces, this.x + this.color.forward(), this.y as int),
    ensures
        !this.destinations(pieces, last).contains(
            ((this.x + this.color.forward()) as u8, this.y),
        ),
        this.destinations(pieces, last).contains(
            ((this.x + 2 * this.color.forward()) as u8, this.y),
        ) <==> !occupied(pieces, this.x + 2 * this.color.forward(), this.y as int),
{
    let ahead = this.color.forward();
    lemma_pawn_destinations(this, pieces, last, ((this.x + ahead) as u8, this.y));
    lemma_pawn_destinations(this, pieces, last, ((this.x + 2 * ahead) as u8, this.y));
}

/// A square is among a pawn's destinations exactly if one of the five parts
/// of the list holds it.
proof fn lemma_pawn_parts(this: Piece, pieces: Seq<Piece>, last: Option<Turn>, square: (u8, u8))
    requires
        this.piece_type == PieceType::Pawn,
    ensures
        this.destinations(pieces, last).contains(square) <==> {
            ||| pawn_advance(this, pieces, this.color.forward()).contains(square)
            ||| pawn_capture(this, pieces, this.color.forward(), -1).contains(square)
            ||| pawn_capture(this, pieces, this.color.forward(), 1).contains(square)
            ||| pawn_leap(this, pieces).contains(square)
            ||| en_passant(this, last).contains(square)
        },
{
    let ahead = this.color.forward();
    let one = pawn_advance(this, pieces, ahead);
    let left = pawn_capture(this, pieces, ahead, -1);
    let right = pawn_capture(this, pieces, ahead, 1);
    let two = pawn_leap(this, pieces);
    let passing = en_passant(this, last);
    lemma_contains_concat(one, left, square);
    lemma_contains_concat(one + left, right, square);
    lemma_contains_concat(one + left + right, two, square);
    lemma_contains_concat(one + left + right + two, passing, square);
}

/// What each part of a pawn's list can hold.
proof fn lemma_pawn_part_members(
    this: Piece,
    pieces: Seq<Piece>,
    last: Option<Turn>,
    square: (u8, u8),
)
    ensures
        forall|dx: int| #[trigger]
            pawn_advance(this, pieces, dx).contains(square) <==> {
                &&& square.0 == this.x + dx
                &&& square.1 == this.y
                &&& square.0 < FIELD_SIZE
                &&& !occupied(pieces, square.0 as int, square.1 as int)
            },
        forall|dx: int, dy: int| #[trigger]
            pawn_capture(this, pieces, dx, dy).contains(square) ==> {
                &&& square.0 == this.x + dx
                &&& square.1 == this.y + dy
            },
        en_passant(this, last).contains(square) ==> {
            &&& square.0 == this.x + this.color.forward()
            &&& (square.1 == this.y + 1 || square.1 == this.y - 1)
        },
{
    assert forall|dx: int| #[trigger]
        pawn_advance(this, pieces, dx).contains(square) <==> {
            &&& square.0 == this.x + dx
            &&& square.1 == this.y
            &&& square.0 < FIELD_SIZE
            &&& !occupied(pieces, square.0 as int, square.1 as int)
        } by {
        match offset(this.x as int, dx) {
            Some(x) => {
                if occupied(pieces, x as int, this.y as int) {
                    lemma_contains_empty(square);
                } else {
                    lemma_contains_single((x, this.y), square);
                }
            },
            None => {
                lemma_contains_empty(square);
            },
        }
    }
    assert forall|dx: int, dy: int| #[trigger]
        pawn_capture(this, pieces, dx, dy).contains(square) implies {
            &&& square.0 == this.x + dx
            &&& square.1 == this.y + dy
        } by {
        match offset(this.x as int, dx) {
            Some(x) => match offset(this.y as int, dy) {
                Some(y) => {
                    lemma_contains_single((x, y), square);
                },
                None => {},
            },
            None => {},
        }
    }
    if en_passant(this, last).contains(square) {
        let turn = last->0;
        let x = offset(this.x as int, this.color.forward())->0;
        lemma_contains_single((x, turn.to_y), square);
    }
}

/// A square is among a pawn's destinations exactly if it is the square
/// ahead and free, a square diagonally ahead on which the other side stands,
/// the square two ranks ahead and free, for a pawn on its starting rank, or
/// the square diagonally ahead beside the pawn that has just passed.
pub proof fn lemma_pawn_destinations(
    this: Piece,
    pieces: Seq<Piece>,
    last: Option<Turn>,
    square: (u8, u8),
)
    requires
        this.piece_type == PieceType::Pawn,
    ensures
        this.destinations(pieces, last).contains(square) <==> square.0 < FIELD_SIZE && {
            let ahead = this.color.forward();
            let dx = square.0 - this.x;
            let dy = square.1 - this.y;
            let here = (square.0 as int, square.1 as int);
            ||| dx == ahead && dy == 0 && !occupied(pieces, here.0, here.1)
            ||| dx == ahead && (dy == 1 || dy == -1) && square.1 < FIELD_SIZE && occupied_by(
                pieces,
                this.color.opposite(),
                here.0,
                here.1,
            )
            ||| dx == 2 * ahead && dy == 0 && this.x == this.color.pawn_rank() && !occupied(
                pieces,
                here.0,
                here.1,
            )
            ||| dx == ahead && square.1 < FIELD_SIZE && last is Some && passes(this, last->0)
                && last->0.to_y == square.1
        },
{
    let ahead = this.color.forward();
    lemma_pawn_parts(this, pieces, last, square);
    lemma_pawn_part_members(this, pieces, last, square);
    match offset(this.x as int, ahead) {
        Some(x) => {
            match offset(this.y as int, -1) {
                Some(y) => {
                    lemma_contains_single((x, y), square);
                    lemma_contains_empty(square);
                },
                None => {
                    lemma_contains_empty(square);
                },
            }
            match offset(this.y as int, 1) {
                Some(y) => {
                    lemma_contains_single((x, y), square);
                    lemma_contains_empty(square);
                },
                None => {
                    lemma_contains_empty(square);
                },
            }
            match last {
                Some(turn) => {
                    lemma_contains_single((x, turn.to_y), square);
                    lemma_contains_empty(square);
                },
                None => {
                    lemma_contains_empty(square);
                },
            }
        },
        None => {
            lemma_contains_empty(square);
        },
    }
}

/// Every square offered to a piece that stands on the board is on the
/// board.
pub proof fn lemma_destinations_on_board(this: Piece, pieces: Seq<Piece>, last: Option<Turn>)
    requires
        this.on_board(),
    ensures
        forall|i: int|
            0 <= i < this.destinations(pieces, last).len() ==> {
                let square = #[trigger] this.destinations(pieces, last)[i];
                square.0 < FIELD_SIZE && square.1 < FIELD_SIZE
            },
{
    let all = this.destinations(pieces, last);
    assert forall|i: int| 0 <= i < all.len() implies {
        let square = #[trigger] all[i];
        square.0 < FIELD_SIZE && square.1 < FIELD_SIZE
    } by {
        let square = all[i];
        assert(all.contains(square));
        match this.piece_type {
            PieceType::King => lemma_king_destinations(this, pieces, last, square),
            PieceType::Queen => lemma_queen_destinations(this, pieces, last, square),
            PieceType::Bishop => lemma_bishop_destinations(this, pieces, last, square),
            PieceType::Knight => lemma_knight_destinations(this, pieces, last, square),
            PieceType::Rook => lemma_rook_destinations(this, pieces, last, square),
            PieceType::Pawn => lemma_pawn_destinations(this, pieces, last, square),
        }
    }
}

/// A king, a knight, a rook, a bishop and a queen are never offered a square
/// on which a piece of their own colour stands.
pub proof fn lemma_pieces_keep_off_their_own(
    this: Piece,
    pieces: Seq<Piece>,
    last: Option<Turn>,
)
    requires
        this.piece_type != PieceType::Pawn,
    ensures
        forall|i: int|
            0 <= i < this.destinations(pieces, last).len() ==> {
                let square = #[trigger] this.destinations(pieces, last)[i];
                !occupied_by(pieces, this.color, square.0 as int, square.1 as int)
            },
{
    let all = this.destinations(pieces, last);
    assert forall|i: int| 0 <= i < all.len() implies {
        let square = #[trigger] all[i];
        !occupied_by(pieces, this.color, square.0 as int, square.1 as int)
    } by {
        let square = all[i];
        assert(all.contains(square));
        match this.piece_type {
            PieceType::King => lemma_king_destinations(this, pieces, last, square),
            PieceType::Queen => lemma_queen_destinations(this, pieces, last, square),
            PieceType::Bishop => lemma_bishop_destinations(this, pieces, last, square),
            PieceType::Knight => lemma_knight_destinations(this, pieces, last, square),
            PieceType::Rook => lemma_rook_destinations(this, pieces, last, square),
            PieceType::Pawn => {},
        }
    }
}

/// For every piece but a pawn, the squares it is offered are exactly the
/// squares it may move to: none of them is held by its own colour.
pub proof fn lemma_offered_is_valid(
    this: Piece,
    pieces: Seq<Piece>,
    last: Option<Turn>,
    target: (u8, u8),
)
    requires
        this.piece_type != PieceType::Pawn,
    ensures
        this.may_move_to(target, pieces, last) <==> this.destinations(pieces, last).contains(
            target,
        ),
{
    match this.piece_type {
        PieceType::King => lemma_king_destinations(this, pieces, last, target),
        PieceType::Queen => lemma_queen_destinations(this, pieces, last, target),
        PieceType::Bishop => lemma_bishop_destinations(this, pieces, last, target),
        PieceType::Knight => lemma_knight_destinations(this, pieces, last, target),
        PieceType::Rook => lemma_rook_destinations(this, pieces, last, target),
        PieceType::Pawn => {},
    }
}

/// No piece is offered the square it stands on.
pub proof fn lemma_mover_leaves_its_square(this: Piece, pieces: Seq<Piece>, last: Option<Turn>)
    ensures
        !this.destinations(pieces, last).contains((this.x, this.y)),
{
    let here = (this.x, this.y);
    match this.piece_type {
        PieceType::King => lemma_king_destinations(this, pieces, last, here),
        PieceType::Queen => lemma_queen_destinations(this, pieces, last, here),
        PieceType::Bishop => lemma_bishop_destinations(this, pieces, last, here),
        PieceType::Knight => lemma_knight_destinations(this, pieces, last, here),
        PieceType::Rook => lemma_rook_destinations(this, pieces, last, here),
        PieceType::Pawn => lemma_pawn_destinations(this, pieces, last, here),
    }
}

/// A ray from a square of the board offers no more squares than it has
/// steps, and no more than fit between the mover and the edge.
proof fn lemma_ray_len(this: Piece, pieces: Seq<Piece>, sx: int, sy: int, reach: nat)
    requires
        this.on_board(),
        -1 <= sx <= 1,
        -1 <= sy <= 1,
        reach <= FIELD_SIZE,
    ensures
        ray(this, pieces, sx, sy, reach).len() <= reach,
        ray(this, pieces, sx, sy, reach).len() <= room(this.x as int, sx),
        ray(this, pieces, sx, sy, reach).len() <= room(this.y as int, sy),
    decreases reach,
{
    if reach > 0 {
        lemma_ray_len(this, pieces, sx, sy, (reach - 1) as nat);
        assert(sx * reach == if sx == 1 {
            reach as int
        } else if sx == 0 {
            0
        } else {
            -reach
        }) by (nonlinear_arith)
            requires
                -1 <= sx <= 1,
        ;
        assert(sy * reach == if sy == 1 {
            reach as int
        } else if sy == 0 {
            0
        } else {
            -reach
        }) by (nonlinear_arith)
            requires
                -1 <= sy <= 1,
        ;
    }
}

/// How many squares a piece on the board can be offered at most: a king or
/// a knight 8, a rook 14, a bishop 13, a queen 27, and a pawn 5, or 4 unless
/// it stands on its starting rank and a pawn has just passed it.
pub proof fn lemma_destination_count(this: Piece, pieces: Seq<Piece>, last: Option<Turn>)
    requires
        this.on_board(),
    ensures
        this.destinations(pieces, last).len() <= match this.piece_type {
            PieceType::King => 8nat,
            PieceType::Knight => 8nat,
            PieceType::Rook => 14nat,
            PieceType::Bishop => 13nat,
            PieceType::Queen => 27nat,
            PieceType::Pawn => if this.x == this.color.pawn_rank() && en_passant(this, last).len()
                > 0 {
                5nat
            } else {
                4nat
            },
        },
{
    let reach = FIELD_SIZE as nat;
    match this.piece_type {
        PieceType::King => {},
        PieceType::Knight => {},
        PieceType::Pawn => {},
        PieceType::Rook => {
            lemma_rook_count(this, pieces);
        },
        PieceType::Bishop => {
            lemma_bishop_count(this, pieces);
        },
        PieceType::Queen => {
            lemma_rook_count(this, pieces);
            lemma_bishop_count(this, pieces);
        },
    }
}

/// The four rays of a rook hold at most 14 squares.
proof fn lemma_rook_count(this: Piece, pieces: Seq<Piece>)
    requires
        this.on_board(),
    ensures
        rook_moves(this, pieces).len() <= 14,
{
    let reach = FIELD_SIZE as nat;
    lemma_ray_len(this, pieces, 1, 0, reach);
    lemma_ray_len(this, pieces, -1, 0, reach);
    lemma_ray_len(this, pieces, 0, 1, reach);
    lemma_ray_len(this, pieces, 0, -1, reach);
}

/// The four rays of a bishop hold at most 13 squares.
proof fn lemma_bishop_count(this: Piece, pieces: Seq<Piece>)
    requires
        this.on_board(),
    ensures
        bishop_moves(this, pieces).len() <= 13,
{
    let reach = FIELD_SIZE as nat;
    lemma_ray_len(this, pieces, 1, 1, reach);
    lemma_ray_len(this, pieces, 1, -1, reach);
    lemma_ray_len(this, pieces, -1, -1, reach);
    lemma_ray_len(this, pieces, -1, 1, reach);
}

/// Listing the destinations twice, for the same piece, the same pieces on
/// the board and the same last turn, gives the same list both times: the
/// same squares, as often, in the same order.
pub proof fn lemma_destinations_repeat(
    this: Piece,
    pieces: Seq<Piece>,
    last: Option<Turn>,
    first: Seq<(u8, u8)>,
    second: Seq<(u8, u8)>,
)
    requires
        first == this.destinations(pieces, last),
        second == this.destinations(pieces, last),
    ensures
        first == second,
        first.to_multiset() == second.to_multiset(),
{
}

} // verus!
