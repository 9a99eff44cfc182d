//! Pseudo-legal move generation: for a piece of the side to move, every
//! geometrically legal destination, ignoring whether the mover's own king
//! is left in check. Each generator is proved to return exactly the moves
//! its geometric predicate describes.

use vstd::prelude::*;

use crate::apply::{rights_top, rook_of};
use crate::board::{
    all_castling_rights, at, black_rook_piece, board_ok, colour_sign, create_move, gen_move, ix,
    on_board, piece_at, piece_ok, sign_of, turn_ok, white_rook_piece, CastlingRights, Colours,
    Move, PieceTypes, Position, PositionV,
};

verus! {

broadcast use vstd::seq_lib::lemma_seq_contains_after_push;

pub open spec fn colour_at(v: PositionV, x: int, y: int) -> Colours {
    at(v, x, y).colour
}

/// A single-step destination is playable when it is on the board and does
/// not hold a piece of the mover's own colour.
pub open spec fn step_ok(v: PositionV, sx: int, sy: int, ex: int, ey: int) -> bool {
    &&& on_board(ex, ey)
    &&& colour_at(v, ex, ey) != colour_at(v, sx, sy)
}

/// The eight L-shaped knight offsets.
pub open spec fn knight_offset(sx: int, sy: int, ex: int, ey: int) -> bool {
    ||| (ex == sx + 1 && ey == sy + 2)
    ||| (ex == sx + 2 && ey == sy + 1)
    ||| (ex == sx + 2 && ey == sy - 1)
    ||| (ex == sx + 1 && ey == sy - 2)
    ||| (ex == sx - 1 && ey == sy - 2)
    ||| (ex == sx - 2 && ey == sy - 1)
    ||| (ex == sx - 2 && ey == sy + 1)
    ||| (ex == sx - 1 && ey == sy + 2)
}

/// The eight adjacent-square king offsets.
pub open spec fn king_offset(sx: int, sy: int, ex: int, ey: int) -> bool {
    ||| (ex == sx + 1 && ey == sy + 1)
    ||| (ex == sx + 1 && ey == sy)
    ||| (ex == sx + 1 && ey == sy - 1)
    ||| (ex == sx && ey == sy + 1)
    ||| (ex == sx && ey == sy - 1)
    ||| (ex == sx - 1 && ey == sy + 1)
    ||| (ex == sx - 1 && ey == sy)
    ||| (ex == sx - 1 && ey == sy - 1)
}

pub open spec fn knight_pred(v: PositionV, sx: int, sy: int, ex: int, ey: int) -> bool {
    knight_offset(sx, sy, ex, ey) && step_ok(v, sx, sy, ex, ey)
}

/// Pushes the move to (x + dx, y + dy) when that square is on the board
/// and not occupied by the mover's own colour; otherwise leaves the vector
/// alone.
fn push_step_move(game_position: &Position, out: &mut Vec<Move>, x: i32, y: i32, dx: i32, dy: i32)
    requires
        0 <= x < 8,
        0 <= y < 8,
        -2 <= dx <= 2,
        -2 <= dy <= 2,
    ensures
        final(out)@ == if step_ok(game_position@, x as int, y as int, x + dx, y + dy) {
            old(out)@.push(gen_move(game_position@, x as int, y as int, x + dx, y + dy))
        } else {
            old(out)@
        },
{
    let xx = x + dx;
    let yy = y + dy;
    if xx > 7 || yy > 7 || xx < 0 || yy < 0 {
        return ;
    }
    let col = piece_at(game_position, x as usize, y as usize).colour;
    if piece_at(game_position, xx as usize, yy as usize).colour != col {
        let m = create_move(game_position, x as usize, y as usize, xx as usize, yy as usize);
        out.push(m);
    }
}

/// The knight's moves: the eight L-shaped offsets, each allowed unless it
/// leaves the board or lands on a friendly piece.
pub(crate) fn get_possible_knight_moves(game_position: &Position, x: i32, y: i32) -> (r: Vec<Move>)
    requires
        0 <= x < 8,
        0 <= y < 8,
    ensures
        forall|m: Move|
            r@.contains(m) <==> exists|ex: int, ey: int|
                knight_pred(game_position@, x as int, y as int, ex, ey) && m == #[trigger] gen_move(
                    game_position@,
                    x as int,
                    y as int,
                    ex,
                    ey,
                ),
{
    let mut possible_moves: Vec<Move> = Vec::new();
    push_step_move(game_position, &mut possible_moves, x, y, 1, 2);
    push_step_move(game_position, &mut possible_moves, x, y, 2, 1);
    push_step_move(game_position, &mut possible_moves, x, y, 2, -1);
    push_step_move(game_position, &mut possible_moves, x, y, 1, -2);
    push_step_move(game_position, &mut possible_moves, x, y, -1, -2);
    push_step_move(game_position, &mut possible_moves, x, y, -2, -1);
    push_step_move(game_position, &mut possible_moves, x, y, -2, 1);
    push_step_move(game_position, &mut possible_moves, x, y, -1, 2);
    possible_moves
}


pub broadcast proof fn lemma_contains_add<A>(a: Seq<A>, b: Seq<A>, x: A)
    ensures
        #[trigger] (a + b).contains(x) <==> a.contains(x) || b.contains(x),
{
    if a.contains(x) {
        let i = choose|i: int| 0 <= i < a.len() && a[i] == x;
        assert((a + b)[i] == x);
    }
    if b.contains(x) {
        let i = choose|i: int| 0 <= i < b.len() && b[i] == x;
        assert((a + b)[a.len() + i] == x);
    }
    if (a + b).contains(x) {
        let i = choose|i: int| 0 <= i < (a + b).len() && (a + b)[i] == x;
        if i < a.len() {
            assert(a[i] == x);
        } else {
            assert(b[i - a.len()] == x);
        }
    }
}

/// The coordinate reached from `c` after `k` steps in direction `d`
/// (`d` is -1, 0 or 1).
pub open spec fn walk(c: int, d: int, k: int) -> int {
    if d == 1 {
        c + k
    } else if d == -1 {
        c - k
    } else {
        c
    }
}

/// How many steps in direction (dx, dy) lead from (sx, sy) to (ex, ey),
/// read off the coordinate that actually moves.
pub open spec fn ray_len(sx: int, sy: int, ex: int, ey: int, dx: int, dy: int) -> int {
    if dx == 1 {
        ex - sx
    } else if dx == -1 {
        sx - ex
    } else if dy == 1 {
        ey - sy
    } else {
        sy - ey
    }
}

pub open spec fn ray_sq_blank(v: PositionV, sx: int, sy: int, dx: int, dy: int, j: int) -> bool {
    colour_at(v, walk(sx, dx, j), walk(sy, dy, j)) == Colours::EMPTY
}

/// A ray-cast destination: `k` steps away in direction (dx, dy), on the
/// board, with every strictly intermediate square empty, and not holding
/// the mover's own colour (an enemy piece is a destination too, and the
/// cast stops there).
pub open spec fn ray_pred(v: PositionV, sx: int, sy: int, dx: int, dy: int, ex: int, ey: int) -> bool {
    let k = ray_len(sx, sy, ex, ey, dx, dy);
    &&& k >= 1
    &&& ex == walk(sx, dx, k)
    &&& ey == walk(sy, dy, k)
    &&& on_board(ex, ey)
    &&& (forall|j: int| 1 <= j < k ==> #[trigger] ray_sq_blank(v, sx, sy, dx, dy, j))
    &&& colour_at(v, ex, ey) != colour_at(v, sx, sy)
}

/// Walks outward from (x, y) in direction (dx, dy) until the board edge,
/// a friendly piece (stop before) or an enemy piece (take it, stop after),
/// and returns exactly the destinations `ray_pred` describes.
fn ray_moves(game_position: &Position, x: i32, y: i32, dx: i32, dy: i32) -> (r: Vec<Move>)
    requires
        0 <= x < 8,
        0 <= y < 8,
        -1 <= dx <= 1,
        -1 <= dy <= 1,
        !(dx == 0 && dy == 0),
    ensures
        forall|m: Move|
            r@.contains(m) <==> exists|ex: int, ey: int|
                ray_pred(game_position@, x as int, y as int, dx as int, dy as int, ex, ey) && m
                    == #[trigger] gen_move(game_position@, x as int, y as int, ex, ey),
{
    let ghost v = game_position@;
    let ghost gx = x as int;
    let ghost gy = y as int;
    let ghost gdx = dx as int;
    let ghost gdy = dy as int;
    let col = piece_at(game_position, x as usize, y as usize).colour;
    let mut possible_moves: Vec<Move> = Vec::new();
    let mut xx = x;
    let mut yy = y;
    let mut k: i32 = 0;
    loop
        invariant_except_break
            0 <= x < 8,
            0 <= y < 8,
            -1 <= dx <= 1,
            -1 <= dy <= 1,
            !(dx == 0 && dy == 0),
            v == game_position@,
            gx == x as int && gy == y as int && gdx == dx as int && gdy == dy as int,
            col == colour_at(v, gx, gy),
            0 <= k <= 7,
            xx as int == walk(gx, gdx, k as int),
            yy as int == walk(gy, gdy, k as int),
            0 <= xx < 8,
            0 <= yy < 8,
            forall|j: int| 1 <= j <= k as int ==> #[trigger] ray_sq_blank(v, gx, gy, gdx, gdy, j),
            forall|m: Move|
                possible_moves@.contains(m) <==> exists|ex: int, ey: int|
                    ray_pred(v, gx, gy, gdx, gdy, ex, ey) && ray_len(gx, gy, ex, ey, gdx, gdy)
                        <= k as int && m == #[trigger] gen_move(v, gx, gy, ex, ey),
        ensures
            forall|m: Move|
                possible_moves@.contains(m) <==> exists|ex: int, ey: int|
                    ray_pred(v, gx, gy, gdx, gdy, ex, ey) && m == #[trigger] gen_move(
                        v,
                        gx,
                        gy,
                        ex,
                        ey,
                    ),
        decreases 8 - k,
    {
        xx = xx + dx;
        yy = yy + dy;
        k = k + 1;
        if xx > 7 || yy > 7 || xx < 0 || yy < 0 {
            proof {
                assert forall|ex: int, ey: int| ray_pred(v, gx, gy, gdx, gdy, ex, ey) implies
                    ray_len(gx, gy, ex, ey, gdx, gdy) < k as int by {
                    let len = ray_len(gx, gy, ex, ey, gdx, gdy);
                    if len >= k as int {
                        if gdx == 1 {
                            assert(ex == gx + len && ex > 7);
                        } else if gdx == -1 {
                            assert(ex == gx - len && ex < 0);
                        } else if gdy == 1 {
                            assert(ey == gy + len && ey > 7);
                        } else {
                            assert(ey == gy - len && ey < 0);
                        }
                    }
                }
            }
            break;
        }
        let c2 = piece_at(game_position, xx as usize, yy as usize).colour;
        if c2 != col {
            let m = create_move(game_position, x as usize, y as usize, xx as usize, yy as usize);
            proof {
                assert(ray_len(gx, gy, xx as int, yy as int, gdx, gdy) == k as int);
                assert(ray_pred(v, gx, gy, gdx, gdy, xx as int, yy as int));
            }
            possible_moves.push(m);
        } else {
            proof {
                assert(!ray_pred(v, gx, gy, gdx, gdy, xx as int, yy as int));
                assert forall|ex: int, ey: int|
                    ray_pred(v, gx, gy, gdx, gdy, ex, ey) && ray_len(gx, gy, ex, ey, gdx, gdy)
                        <= k as int implies ray_len(gx, gy, ex, ey, gdx, gdy) < k as int by {
                    let len = ray_len(gx, gy, ex, ey, gdx, gdy);
                    if len == k as int {
                        assert(ex == walk(gx, gdx, len) == xx as int);
                        assert(ey == walk(gy, gdy, len) == yy as int);
                    }
                }
            }
        }
        if c2 != Colours::EMPTY {
            proof {
                assert(!ray_sq_blank(v, gx, gy, gdx, gdy, k as int));
                assert forall|ex: int, ey: int| ray_pred(v, gx, gy, gdx, gdy, ex, ey) implies
                    ray_len(gx, gy, ex, ey, gdx, gdy) <= k as int by {
                    let len = ray_len(gx, gy, ex, ey, gdx, gdy);
                    if len > k as int {
                        assert(ray_sq_blank(v, gx, gy, gdx, gdy, k as int));
                    }
                }
            }
            break;
        }
        proof {
            assert(ray_sq_blank(v, gx, gy, gdx, gdy, k as int));
        }
    }
    possible_moves
}

pub open spec fn rook_pred(v: PositionV, sx: int, sy: int, ex: int, ey: int) -> bool {
    ||| ray_pred(v, sx, sy, 0, 1, ex, ey)
    ||| ray_pred(v, sx, sy, 0, -1, ex, ey)
    ||| ray_pred(v, sx, sy, 1, 0, ex, ey)
    ||| ray_pred(v, sx, sy, -1, 0, ex, ey)
}

pub open spec fn bishop_pred(v: PositionV, sx: int, sy: int, ex: int, ey: int) -> bool {
    ||| ray_pred(v, sx, sy, 1, 1, ex, ey)
    ||| ray_pred(v, sx, sy, 1, -1, ex, ey)
    ||| ray_pred(v, sx, sy, -1, 1, ex, ey)
    ||| ray_pred(v, sx, sy, -1, -1, ex, ey)
}

pub open spec fn queen_pred(v: PositionV, sx: int, sy: int, ex: int, ey: int) -> bool {
    rook_pred(v, sx, sy, ex, ey) || bishop_pred(v, sx, sy, ex, ey)
}

/// The rook's moves: ray casts along the file and the rank.
pub(crate) fn get_possible_rook_moves(game_position: &Position, x: i32, y: i32) -> (r: Vec<Move>)
    requires
        0 <= x < 8,
        0 <= y < 8,
    ensures
        forall|m: Move|
            r@.contains(m) <==> exists|ex: int, ey: int|
                rook_pred(game_position@, x as int, y as int, ex, ey) && m == #[trigger] gen_move(
                    game_position@,
                    x as int,
                    y as int,
                    ex,
                    ey,
                ),
{
    broadcast use lemma_contains_add;

    let mut possible_moves = ray_moves(game_position, x, y, 0, 1);
    let mut r2 = ray_moves(game_position, x, y, 0, -1);
    let mut r3 = ray_moves(game_position, x, y, 1, 0);
    let mut r4 = ray_moves(game_position, x, y, -1, 0);
    possible_moves.append(&mut r2);
    possible_moves.append(&mut r3);
    possible_moves.append(&mut r4);
    possible_moves
}

/// The bishop's moves: ray casts along the four diagonals.
pub(crate) fn get_possible_bishop_moves(game_position: &Position, x: i32, y: i32) -> (r: Vec<Move>)
    requires
        0 <= x < 8,
        0 <= y < 8,
    ensures
        forall|m: Move|
            r@.contains(m) <==> exists|ex: int, ey: int|
                bishop_pred(game_position@, x as int, y as int, ex, ey) && m == #[trigger] gen_move(
                    game_position@,
                    x as int,
                    y as int,
                    ex,
                    ey,
                ),
{
    broadcast use lemma_contains_add;

    let mut possible_moves = ray_moves(game_position, x, y, 1, 1);
    let mut r2 = ray_moves(game_position, x, y, 1, -1);
    let mut r3 = ray_moves(game_position, x, y, -1, 1);
    let mut r4 = ray_moves(game_position, x, y, -1, -1);
    possible_moves.append(&mut r2);
    possible_moves.append(&mut r3);
    possible_moves.append(&mut r4);
    possible_moves
}

/// The queen's moves: ray casts along files, ranks and diagonals.
pub(crate) fn get_possible_queen_moves(game_position: &Position, x: i32, y: i32) -> (r: Vec<Move>)
    requires
        0 <= x < 8,
        0 <= y < 8,
    ensures
        forall|m: Move|
            r@.contains(m) <==> exists|ex: int, ey: int|
                queen_pred(game_position@, x as int, y as int, ex, ey) && m == #[trigger] gen_move(
                    game_position@,
                    x as int,
                    y as int,
                    ex,
                    ey,
                ),
{
    broadcast use lemma_contains_add;

    let mut possible_moves = get_possible_rook_moves(game_position, x, y);
    let mut r2 = get_possible_bishop_moves(game_position, x, y);
    possible_moves.append(&mut r2);
    possible_moves
}


/// Pawn moves: one forward onto an empty square; two forward from the
/// start rank when both squares are empty; a diagonal capture of an enemy
/// piece; and the en-passant capture when the destination file is the
/// position's en-passant file, the pawn stands on the capture rank for its
/// colour, and the destination does not hold a friendly piece.
pub open spec fn pawn_pred(v: PositionV, sx: int, sy: int, ex: int, ey: int) -> bool {
    let c = colour_at(v, sx, sy);
    let s = sign_of(c);
    ||| (ex == sx && ey == sy + s && s != 0 && on_board(ex, ey) && colour_at(v, ex, ey)
        == Colours::EMPTY)
    ||| (ex == sx && ((c == Colours::WHITE && sy == 1) || (c == Colours::BLACK && sy == 6)) && ey
        == sy + s + s && colour_at(v, sx, sy + s) == Colours::EMPTY && colour_at(v, ex, ey)
        == Colours::EMPTY)
    ||| ((ex == sx + 1 || ex == sx - 1) && ey == sy + s && s != 0 && on_board(ex, ey) && sign_of(
        colour_at(v, ex, ey),
    ) == -s)
    ||| ((ex == sx + 1 || ex == sx - 1) && ey == sy + s && s != 0 && on_board(ex, ey) && ex
        == v.en_passant && ((c == Colours::WHITE && sy == 4) || (c == Colours::BLACK && sy == 3))
        && colour_at(v, ex, ey) != c)
}

/// The pawn's moves, per `pawn_pred`.
pub(crate) fn get_possible_pawn_moves(game_position: &Position, x: i32, y: i32) -> (r: Vec<Move>)
    requires
        0 <= x < 8,
        0 <= y < 8,
        sign_of(colour_at(game_position@, x as int, y as int)) != 0,
    ensures
        forall|m: Move|
            r@.contains(m) <==> exists|ex: int, ey: int|
                pawn_pred(game_position@, x as int, y as int, ex, ey) && m == #[trigger] gen_move(
                    game_position@,
                    x as int,
                    y as int,
                    ex,
                    ey,
                ),
{
    let col = piece_at(game_position, x as usize, y as usize).colour;
    let s = colour_sign(col);
    let mut possible_moves: Vec<Move> = Vec::new();

    // forward one square, and two from the start rank
    if (col == Colours::WHITE && y == 1) || (col == Colours::BLACK && y == 6) {
        let yy1 = y + s as i32;
        if piece_at(game_position, x as usize, yy1 as usize).colour == Colours::EMPTY {
            let m = create_move(game_position, x as usize, y as usize, x as usize, yy1 as usize);
            possible_moves.push(m);
            let yy2 = yy1 + s as i32;
            if piece_at(game_position, x as usize, yy2 as usize).colour == Colours::EMPTY {
                let m2 = create_move(
                    game_position,
                    x as usize,
                    y as usize,
                    x as usize,
                    yy2 as usize,
                );
                possible_moves.push(m2);
            }
        }
    } else {
        let yy = y + s as i32;
        if 0 <= yy && yy <= 7 {
            if piece_at(game_position, x as usize, yy as usize).colour == Colours::EMPTY {
                let m = create_move(game_position, x as usize, y as usize, x as usize, yy as usize);
                possible_moves.push(m);
            }
        }
    }

    // captures and en passant, towards each neighbouring file
    let mut dx: i32 = -1;
    while dx <= 1
        invariant
            0 <= x < 8,
            0 <= y < 8,
            dx == -1 || dx == 1 || dx == 3,
            col == colour_at(game_position@, x as int, y as int),
            s as int == sign_of(colour_at(game_position@, x as int, y as int)),
            s != 0,
            forall|m: Move|
                possible_moves@.contains(m) <==> exists|ex: int, ey: int|
                    (pawn_pred(game_position@, x as int, y as int, ex, ey) && (ex == x as int || (
                    dx == 1 && ex == x - 1) || (dx == 3 && ex != x as int))) && m
                        == #[trigger] gen_move(game_position@, x as int, y as int, ex, ey),
        decreases 3 - dx,
    {
        let xx = x + dx;
        let yy = y + s as i32;
        if xx <= 7 && yy <= 7 && xx >= 0 && yy >= 0 {
            let c2 = piece_at(game_position, xx as usize, yy as usize).colour;
            if colour_sign(c2) == -s {
                let m = create_move(game_position, x as usize, y as usize, xx as usize, yy as usize);
                possible_moves.push(m);
            }
            if xx == game_position.en_passant && ((y == 4 && col == Colours::WHITE) || (y == 3
                && col == Colours::BLACK)) && c2 != col {
                let m = create_move(game_position, x as usize, y as usize, xx as usize, yy as usize);
                possible_moves.push(m);
            }
        }
        dx = dx + 2;
    }
    possible_moves
}

pub open spec fn home_of(c: Colours) -> int {
    if c == Colours::WHITE {
        0
    } else {
        7
    }
}

pub open spec fn kingside_right(v: PositionV, c: Colours) -> bool {
    if c == Colours::WHITE {
        rights_top(v).white_kingside
    } else {
        rights_top(v).black_kingside
    }
}

pub open spec fn queenside_right(v: PositionV, c: Colours) -> bool {
    if c == Colours::WHITE {
        rights_top(v).white_queenside
    } else {
        rights_top(v).black_queenside
    }
}

/// Kingside castling is pseudo-legal while the right is retained, the
/// squares between king and rook on the home rank are empty, and the rook
/// stands in its corner. Whether any of the crossed squares is attacked is
/// deferred to the legality filter. Queenside, below, asks the same of its
/// three in-between squares.
pub open spec fn castle_kingside_pred(v: PositionV, sx: int, sy: int, ex: int, ey: int) -> bool {
    let c = colour_at(v, sx, sy);
    let h = home_of(c);
    &&& (c == Colours::WHITE || c == Colours::BLACK)
    &&& ex == sx + 2
    &&& ey == sy
    &&& ex <= 7
    &&& kingside_right(v, c)
    &&& colour_at(v, 5, h) == Colours::EMPTY
    &&& colour_at(v, 6, h) == Colours::EMPTY
    &&& at(v, 7, h) == rook_of(c)
}

pub open spec fn castle_queenside_pred(v: PositionV, sx: int, sy: int, ex: int, ey: int) -> bool {
    let c = colour_at(v, sx, sy);
    let h = home_of(c);
    &&& (c == Colours::WHITE || c == Colours::BLACK)
    &&& ex == sx - 2
    &&& ey == sy
    &&& ex >= 0
    &&& queenside_right(v, c)
    &&& colour_at(v, 3, h) == Colours::EMPTY
    &&& colour_at(v, 2, h) == Colours::EMPTY
    &&& colour_at(v, 1, h) == Colours::EMPTY
    &&& at(v, 0, h) == rook_of(c)
}

pub open spec fn king_pred(v: PositionV, sx: int, sy: int, ex: int, ey: int) -> bool {
    ||| (king_offset(sx, sy, ex, ey) && step_ok(v, sx, sy, ex, ey))
    ||| castle_kingside_pred(v, sx, sy, ex, ey)
    ||| castle_queenside_pred(v, sx, sy, ex, ey)
}

/// The king's moves: the eight adjacent squares, plus the two castling
/// moves, per `king_pred`.
pub(crate) fn get_possible_king_moves(game_position: &Position, x: i32, y: i32) -> (r: Vec<Move>)
    requires
        0 <= x < 8,
        0 <= y < 8,
        sign_of(colour_at(game_position@, x as int, y as int)) != 0,
    ensures
        forall|m: Move|
            r@.contains(m) <==> exists|ex: int, ey: int|
                king_pred(game_position@, x as int, y as int, ex, ey) && m == #[trigger] gen_move(
                    game_position@,
                    x as int,
                    y as int,
                    ex,
                    ey,
                ),
{
    let mut possible_moves: Vec<Move> = Vec::new();
    push_step_move(game_position, &mut possible_moves, x, y, 1, 1);
    push_step_move(game_position, &mut possible_moves, x, y, 1, 0);
    push_step_move(game_position, &mut possible_moves, x, y, 1, -1);
    push_step_move(game_position, &mut possible_moves, x, y, 0, 1);
    push_step_move(game_position, &mut possible_moves, x, y, 0, -1);
    push_step_move(game_position, &mut possible_moves, x, y, -1, 1);
    push_step_move(game_position, &mut possible_moves, x, y, -1, 0);
    push_step_move(game_position, &mut possible_moves, x, y, -1, -1);

    let col = piece_at(game_position, x as usize, y as usize).colour;
    let l = game_position.castling_rights_history.len();
    let castling_rights: CastlingRights;
    if l == 0 {
        castling_rights = all_castling_rights();
    } else {
        castling_rights = game_position.castling_rights_history[l - 1];
    }

    // castle kingside
    if col == Colours::WHITE {
        if x + 2 <= 7 && piece_at(game_position, 5, 0).colour == Colours::EMPTY && piece_at(
            game_position,
            6,
            0,
        ).colour == Colours::EMPTY && castling_rights.white_kingside && piece_at(game_position, 7, 0)
            == white_rook_piece() {
            let m = create_move(game_position, x as usize, y as usize, (x + 2) as usize, y as usize);
            possible_moves.push(m);
        }
    }
    if col == Colours::BLACK {
        if x + 2 <= 7 && piece_at(game_position, 5, 7).colour == Colours::EMPTY && piece_at(
            game_position,
            6,
            7,
        ).colour == Colours::EMPTY && castling_rights.black_kingside && piece_at(game_position, 7, 7)
            == black_rook_piece() {
            let m = create_move(game_position, x as usize, y as usize, (x + 2) as usize, y as usize);
            possible_moves.push(m);
        }
    }
    // castle queenside
    if col == Colours::WHITE {
        if x - 2 >= 0 && piece_at(game_position, 3, 0).colour == Colours::EMPTY && piece_at(
            game_position,
            2,
            0,
        ).colour == Colours::EMPTY && piece_at(game_position, 1, 0).colour == Colours::EMPTY
            && castling_rights.white_queenside && piece_at(game_position, 0, 0)
            == white_rook_piece() {
            let m = create_move(game_position, x as usize, y as usize, (x - 2) as usize, y as usize);
            possible_moves.push(m);
        }
    }
    if col == Colours::BLACK {
        if x - 2 >= 0 && piece_at(game_position, 3, 7).colour == Colours::EMPTY && piece_at(
            game_position,
            2,
            7,
        ).colour == Colours::EMPTY && piece_at(game_position, 1, 7).colour == Colours::EMPTY
            && castling_rights.black_queenside && piece_at(game_position, 0, 7)
            == black_rook_piece() {
            let m = create_move(game_position, x as usize, y as usize, (x - 2) as usize, y as usize);
            possible_moves.push(m);
        }
    }
    possible_moves
}


/// The geometric move predicate of whatever piece stands on (sx, sy).
pub open spec fn pseudo_pred(v: PositionV, sx: int, sy: int, ex: int, ey: int) -> bool {
    &&& on_board(sx, sy)
    &&& match at(v, sx, sy).piece_type {
        PieceTypes::KNIGHT => knight_pred(v, sx, sy, ex, ey),
        PieceTypes::ROOK => rook_pred(v, sx, sy, ex, ey),
        PieceTypes::QUEEN => queen_pred(v, sx, sy, ex, ey),
        PieceTypes::KING => king_pred(v, sx, sy, ex, ey),
        PieceTypes::BISHOP => bishop_pred(v, sx, sy, ex, ey),
        PieceTypes::PAWN => pawn_pred(v, sx, sy, ex, ey),
        PieceTypes::BLANK => false,
    }
}

/// The pseudo-legal moves of the piece on (x, y), dispatched by its type.
pub(crate) fn get_piece_possible_moves(game_position: &Position, x: i32, y: i32) -> (r: Vec<Move>)
    requires
        0 <= x < 8,
        0 <= y < 8,
        at(game_position@, x as int, y as int).piece_type != PieceTypes::BLANK,
        sign_of(colour_at(game_position@, x as int, y as int)) != 0,
    ensures
        forall|m: Move|
            r@.contains(m) <==> exists|ex: int, ey: int|
                pseudo_pred(game_position@, x as int, y as int, ex, ey) && m == #[trigger] gen_move(
                    game_position@,
                    x as int,
                    y as int,
                    ex,
                    ey,
                ),
{
    match piece_at(game_position, x as usize, y as usize).piece_type {
        PieceTypes::KNIGHT => get_possible_knight_moves(game_position, x, y),
        PieceTypes::ROOK => get_possible_rook_moves(game_position, x, y),
        PieceTypes::QUEEN => get_possible_queen_moves(game_position, x, y),
        PieceTypes::KING => get_possible_king_moves(game_position, x, y),
        PieceTypes::BISHOP => get_possible_bishop_moves(game_position, x, y),
        PieceTypes::PAWN => get_possible_pawn_moves(game_position, x, y),
        PieceTypes::BLANK => unreached(),
    }
}

/// Some piece of the side to move has `m` as a pseudo-legal move.
pub open spec fn any_pseudo(v: PositionV, m: Move) -> bool {
    exists|sx: int, sy: int, ex: int, ey: int|
        on_board(sx, sy) && sign_of(colour_at(v, sx, sy)) == v.turn && pseudo_pred(v, sx, sy, ex, ey)
            && m == #[trigger] gen_move(v, sx, sy, ex, ey)
}

/// `any_pseudo` restricted to source squares with flat index below `n`:
/// the scan prefix of the collector below.
pub open spec fn any_pseudo_before(v: PositionV, m: Move, n: int) -> bool {
    exists|sx: int, sy: int, ex: int, ey: int|
        on_board(sx, sy) && ix(sx, sy) < n && sign_of(colour_at(v, sx, sy)) == v.turn
            && pseudo_pred(v, sx, sy, ex, ey) && m == #[trigger] gen_move(v, sx, sy, ex, ey)
}

/// All pseudo-legal moves of the side to move, across the whole board;
/// the raw material for check detection and the legality filter.
pub(crate) fn get_all_possible_moves(game_position: &Position) -> (r: Vec<Move>)
    requires
        board_ok(game_position@),
        turn_ok(game_position@),
    ensures
        forall|m: Move| r@.contains(m) <==> any_pseudo(game_position@, m),
{
    broadcast use lemma_contains_add;

    let ghost v = game_position@;
    let mut all_possible_moves: Vec<Move> = Vec::new();
    let mut x: usize = 0;
    while x < 8
        invariant
            x <= 8,
            v == game_position@,
            board_ok(v),
            turn_ok(v),
            forall|m: Move|
                all_possible_moves@.contains(m) <==> any_pseudo_before(v, m, (x * 8) as int),
        decreases 8 - x,
    {
        let mut y: usize = 0;
        while y < 8
            invariant
                x < 8,
                y <= 8,
                v == game_position@,
                board_ok(v),
                turn_ok(v),
                forall|m: Move|
                    all_possible_moves@.contains(m) <==> any_pseudo_before(
                        v,
                        m,
                        (x * 8 + y) as int,
                    ),
            decreases 8 - y,
        {
            let ghost n = ix(x as int, y as int);
            let piece = piece_at(game_position, x, y);
            if colour_sign(piece.colour) == game_position.turn {
                proof {
                    assert(piece_ok(v.board[n]));
                }
                let ghost pre = all_possible_moves@;
                let mut pm = get_piece_possible_moves(game_position, x as i32, y as i32);
                let ghost pmv = pm@;
                all_possible_moves.append(&mut pm);
                proof {
                    assert forall|m: Move|
                        all_possible_moves@.contains(m) implies any_pseudo_before(
                        v,
                        m,
                        n + 1,
                    ) by {
                        if pre.contains(m) {
                            let (sx, sy, ex, ey) = choose|sx: int, sy: int, ex: int, ey: int|
                                on_board(sx, sy) && ix(sx, sy) < n && sign_of(colour_at(v, sx, sy))
                                    == v.turn && pseudo_pred(v, sx, sy, ex, ey) && m
                                    == #[trigger] gen_move(v, sx, sy, ex, ey);
                            assert(ix(sx, sy) < n + 1);
                        } else {
                            assert(pmv.contains(m));
                            let (ex, ey) = choose|ex: int, ey: int|
                                pseudo_pred(v, x as int, y as int, ex, ey) && m
                                    == #[trigger] gen_move(v, x as int, y as int, ex, ey);
                            assert(ix(x as int, y as int) < n + 1);
                        }
                    }
                    assert forall|m: Move|
                        any_pseudo_before(v, m, n + 1) implies all_possible_moves@.contains(
                        m,
                    ) by {
                        let (sx, sy, ex, ey) = choose|sx: int, sy: int, ex: int, ey: int|
                            on_board(sx, sy) && ix(sx, sy) < n + 1 && sign_of(
                                colour_at(v, sx, sy),
                            ) == v.turn && pseudo_pred(v, sx, sy, ex, ey) && m
                                == #[trigger] gen_move(v, sx, sy, ex, ey);
                        if ix(sx, sy) == n {
                            assert(sx == x as int && sy == y as int);
                            assert(pmv.contains(m));
                        } else {
                            assert(any_pseudo_before(v, m, n));
                            assert(pre.contains(m));
                        }
                        lemma_contains_add(pre, pmv, m);
                        assert((pre + pmv).contains(m));
                    }
                }
            } else {
                proof {
                    assert forall|m: Move|
                        any_pseudo_before(v, m, n + 1) implies any_pseudo_before(v, m, n) by {
                        let (sx, sy, ex, ey) = choose|sx: int, sy: int, ex: int, ey: int|
                            on_board(sx, sy) && ix(sx, sy) < n + 1 && sign_of(
                                colour_at(v, sx, sy),
                            ) == v.turn && pseudo_pred(v, sx, sy, ex, ey) && m
                                == #[trigger] gen_move(v, sx, sy, ex, ey);
                        if ix(sx, sy) == n {
                            assert(sx == x as int && sy == y as int);
                            assert(false);
                        }
                    }
                    assert forall|m: Move|
                        any_pseudo_before(v, m, n) implies any_pseudo_before(v, m, n + 1) by {
                        let (sx, sy, ex, ey) = choose|sx: int, sy: int, ex: int, ey: int|
                            on_board(sx, sy) && ix(sx, sy) < n && sign_of(colour_at(v, sx, sy))
                                == v.turn && pseudo_pred(v, sx, sy, ex, ey) && m
                                == #[trigger] gen_move(v, sx, sy, ex, ey);
                        assert(ix(sx, sy) < n + 1);
                    }
                }
            }
            y = y + 1;
        }
        x = x + 1;
    }
    proof {
        assert forall|m: Move| any_pseudo(v, m) implies any_pseudo_before(v, m, 64) by {
            let (sx, sy, ex, ey) = choose|sx: int, sy: int, ex: int, ey: int|
                on_board(sx, sy) && sign_of(colour_at(v, sx, sy)) == v.turn && pseudo_pred(
                    v,
                    sx,
                    sy,
                    ex,
                    ey,
                ) && m == #[trigger] gen_move(v, sx, sy, ex, ey);
            assert(ix(sx, sy) < 64);
        }
    }
    all_possible_moves
}

} // verus!
