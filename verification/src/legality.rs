//! Check detection and the legality filter: a pseudo-legal move is legal
//! when playing it leaves the mover's own king unattacked, and a castle
//! additionally does not carry the king out of or through an attacked
//! square.

use vstd::prelude::*;

use crate::apply::{apply_spec, move_consistent, play_move, undo_move, undo_spec};
use crate::board::{is_double_spec, kings_ok, piece_ok};
use crate::board::{
    at, board_ok, gen_move, colour_sign, has_king, history_in_bounds, ix, king_of, king_unique, on_board,
    piece_at, sign_of, spec_black_king_piece, spec_white_king_piece, turn_ok, wf, Colours, Move,
    MoveKinds, PieceTypes, Position, PositionV,
};
use crate::movegen::{
    any_pseudo, colour_at, get_all_possible_moves, get_piece_possible_moves, pseudo_pred,
};

verus! {

/// The colour whose sign is `t`.
pub open spec fn side_colour(t: int) -> Colours {
    if t == 1 {
        Colours::WHITE
    } else {
        Colours::BLACK
    }
}

/// Square (x, y) appears as a destination among the pseudo-legal moves of
/// the side to move.
pub open spec fn attacked(v: PositionV, x: int, y: int) -> bool {
    exists|sx: int, sy: int|
        on_board(sx, sy) && sign_of(colour_at(v, sx, sy)) == v.turn && #[trigger] pseudo_pred(
            v,
            sx,
            sy,
            x,
            y,
        )
}

/// Every pseudo-legal destination lies on the board.
pub proof fn lemma_pseudo_on_board(v: PositionV, sx: int, sy: int, ex: int, ey: int)
    requires
        pseudo_pred(v, sx, sy, ex, ey),
    ensures
        on_board(sx, sy),
        on_board(ex, ey),
{
}

/// Whether square (x, y) is attacked by the side to move.
pub fn is_square_check(game_position: &Position, x: i32, y: i32) -> (r: bool)
    requires
        0 <= x < 8,
        0 <= y < 8,
        board_ok(game_position@),
        turn_ok(game_position@),
    ensures
        r == attacked(game_position@, x as int, y as int),
{
    let ghost v = game_position@;
    let possible_moves = get_all_possible_moves(game_position);
    let mut i: usize = 0;
    while i < possible_moves.len()
        invariant
            0 <= x < 8,
            0 <= y < 8,
            v == game_position@,
            i <= possible_moves.len(),
            forall|m: Move| possible_moves@.contains(m) <==> any_pseudo(v, m),
            forall|j: int|
                0 <= j < i ==> !(#[trigger] possible_moves@[j].end_x == x as usize
                    && possible_moves@[j].end_y == y as usize),
        decreases possible_moves.len() - i,
    {
        let pm = possible_moves[i];
        if pm.end_x == x as usize && pm.end_y == y as usize {
            proof {
                assert(possible_moves@.contains(pm));
                assert(any_pseudo(v, pm));
                let (sx, sy, ex, ey) = choose|sx: int, sy: int, ex: int, ey: int|
                    on_board(sx, sy) && sign_of(colour_at(v, sx, sy)) == v.turn && pseudo_pred(
                        v,
                        sx,
                        sy,
                        ex,
                        ey,
                    ) && pm == #[trigger] gen_move(v, sx, sy, ex, ey);
                lemma_pseudo_on_board(v, sx, sy, ex, ey);
                assert(0 <= ex < 8 && 0 <= ey < 8);
                assert(pm.end_x == ex as usize && pm.end_y == ey as usize);
                assert(pm.end_x as int == ex && pm.end_y as int == ey);
                assert((x as usize) as int == x as int && (y as usize) as int == y as int);
                assert(pm.end_x as int == x as int && pm.end_y as int == y as int);
                assert(ex == x as int && ey == y as int);
            }
            return true;
        }
        i = i + 1;
    }
    proof {
        if attacked(v, x as int, y as int) {
            let (sx, sy) = choose|sx: int, sy: int|
                on_board(sx, sy) && sign_of(colour_at(v, sx, sy)) == v.turn && #[trigger] pseudo_pred(
                    v,
                    sx,
                    sy,
                    x as int,
                    y as int,
                );
            let m = gen_move(v, sx, sy, x as int, y as int);
            assert(any_pseudo(v, m));
            assert(possible_moves@.contains(m));
            let j = choose|j: int| 0 <= j < possible_moves@.len() && possible_moves@[j] == m;
            assert(possible_moves@[j].end_x == x as usize && possible_moves@[j].end_y
                == y as usize);
        }
    }
    false
}

/// The king whose safety the post-move check probes: the king of the side
/// that is not to move (the side that just moved).
pub open spec fn prev_mover_king(v: PositionV) -> crate::board::Piece {
    king_of(side_colour(-v.turn))
}

/// The flat index of that king's square (meaningful under `kings_ok`).
pub open spec fn king_sq_ix(v: PositionV) -> int {
    choose|i: int| 0 <= i < 64 && v.board[i] == prev_mover_king(v)
}

/// The square of the king of the side that just moved. The board invariant
/// guarantees the king exists; no square of an 8 x 8 scan is skipped.
pub fn get_king_position(game_position: &Position) -> (r: (usize, usize))
    requires
        board_ok(game_position@),
        turn_ok(game_position@),
        has_king(game_position@, side_colour(-game_position@.turn)),
    ensures
        r.0 < 8,
        r.1 < 8,
        at(game_position@, r.0 as int, r.1 as int) == prev_mover_king(game_position@),
{
    let ghost v = game_position@;
    let mut x: usize = 0;
    while x < 8
        invariant
            v == game_position@,
            x <= 8,
            board_ok(v),
            turn_ok(v),
            forall|i: int| 0 <= i < (x * 8) as int ==> v.board[i] != prev_mover_king(v),
        decreases 8 - x,
    {
        let mut y: usize = 0;
        while y < 8
            invariant
                v == game_position@,
                x < 8,
                y <= 8,
                board_ok(v),
                turn_ok(v),
                forall|i: int| 0 <= i < (x * 8 + y) as int ==> v.board[i] != prev_mover_king(v),
            decreases 8 - y,
        {
            let p = piece_at(game_position, x, y);
            if p.piece_type == PieceTypes::KING && colour_sign(p.colour) == -game_position.turn {
                proof {
                    assert(crate::board::piece_ok(v.board[ix(x as int, y as int)]));
                    assert(p == prev_mover_king(v));
                }
                return (x, y);
            }
            y = y + 1;
        }
        x = x + 1;
    }
    proof {
        let i = choose|i: int| 0 <= i < 64 && v.board[i] == prev_mover_king(v);
        assert(false);
    }
    unreached()
}

/// The side that just moved stands in check: its king's square is attacked
/// by the side now to move.
pub open spec fn in_check_spec(v: PositionV) -> bool {
    attacked(v, king_sq_ix(v) / 8, king_sq_ix(v) % 8)
}

/// Whether the side that just moved (the side not to move) is in check.
pub fn is_check(game_position: &Position) -> (r: bool)
    requires
        board_ok(game_position@),
        turn_ok(game_position@),
        has_king(game_position@, side_colour(-game_position@.turn)),
        king_unique(game_position@, side_colour(-game_position@.turn)),
    ensures
        r == in_check_spec(game_position@),
{
    let ghost v = game_position@;
    let king_position = get_king_position(game_position);
    proof {
        assert(v.board[king_sq_ix(v)] == prev_mover_king(v));
        assert(king_sq_ix(v) == ix(king_position.0 as int, king_position.1 as int));
        assert(king_sq_ix(v) / 8 == king_position.0 as int);
        assert(king_sq_ix(v) % 8 == king_position.1 as int);
    }
    is_square_check(game_position, king_position.0 as i32, king_position.1 as i32)
}


/// Every pseudo-legal move of the side to move, generated from a
/// well-formed position, is a faithful record of a transition: the
/// apply/undo engine round-trips on it.
pub proof fn lemma_pseudo_consistent(v: PositionV, sx: int, sy: int, ex: int, ey: int)
    requires
        wf(v),
        sign_of(colour_at(v, sx, sy)) == v.turn,
        pseudo_pred(v, sx, sy, ex, ey),
    ensures
        move_consistent(v, gen_move(v, sx, sy, ex, ey)),
{
    let m = gen_move(v, sx, sy, ex, ey);
    assert(piece_ok(at(v, sx, sy)));
    assert(piece_ok(at(v, ex, ey)));
    assert(piece_ok(at(v, 5, sy)));
    assert(piece_ok(at(v, 3, sy)));
    assert(!(sx == ex && sy == ey));
    assert(is_double_spec(m) ==> sx == ex);
    if m.kind == MoveKinds::EnPassant {
        assert(at(v, ex, sy) == crate::apply::ep_restored_pawn(m.start_piece.colour));
    }
}

/// Playing a pseudo-legal move keeps the board canonical, the side to move
/// valid, the history in bounds, and the mover's king present and unique.
pub proof fn lemma_apply_basic(v: PositionV, sx: int, sy: int, ex: int, ey: int)
    requires
        wf(v),
        sign_of(colour_at(v, sx, sy)) == v.turn,
        pseudo_pred(v, sx, sy, ex, ey),
    ensures
        board_ok(apply_spec(v, gen_move(v, sx, sy, ex, ey))),
        turn_ok(apply_spec(v, gen_move(v, sx, sy, ex, ey))),
        history_in_bounds(apply_spec(v, gen_move(v, sx, sy, ex, ey))),
        has_king(apply_spec(v, gen_move(v, sx, sy, ex, ey)), side_colour(v.turn)),
        king_unique(apply_spec(v, gen_move(v, sx, sy, ex, ey)), side_colour(v.turn)),
{
    lemma_pseudo_consistent(v, sx, sy, ex, ey);
    let m = gen_move(v, sx, sy, ex, ey);
    let v2 = apply_spec(v, m);
    let c = side_colour(v.turn);
    let kp = king_of(c);
    assert(piece_ok(at(v, sx, sy)));
    assert forall|i: int| 0 <= i < 64 implies piece_ok(#[trigger] v2.board[i]) by {
        assert(piece_ok(v.board[i]));
    }
    assert forall|i: int|
        0 <= i < v2.history.len() implies crate::board::move_in_bounds(
        #[trigger] v2.history[i],
    ) by {
        if i < v.history.len() {
            assert(v2.history[i] == v.history[i]);
        } else {
            assert(v2.history[i] == m);
        }
    }
    // the mover's king is preserved: either the king itself moved to the
    // end square, or no touched square held it and nothing written is it
    let ki = choose|i: int| 0 <= i < 64 && v.board[i] == kp;
    if at(v, sx, sy) == kp {
        assert(ix(sx, sy) == ki);
        assert(v2.board[ix(ex, ey)] == kp);
        assert forall|i: int, j: int|
            0 <= i < 64 && 0 <= j < 64 && #[trigger] v2.board[i] == kp && #[trigger] v2.board[j]
                == kp implies i == j by {
            assert(piece_ok(v.board[i]) && piece_ok(v.board[j]));
        }
    } else {
        // the end square does not hold the mover's king: it would have to
        // be the king's unique square, making the move a self-capture that
        // no generator emits
        assert(at(v, ex, ey) != kp);
        assert(v2.board[ki] == kp);
        assert forall|i: int, j: int|
            0 <= i < 64 && 0 <= j < 64 && #[trigger] v2.board[i] == kp && #[trigger] v2.board[j]
                == kp implies i == j by {
            assert(piece_ok(v.board[i]) && piece_ok(v.board[j]));
        }
    }
}

/// A pseudo-legal move from a position in which the opponent is not
/// already in check never lands on a king.
pub proof fn lemma_no_king_capture(v: PositionV, sx: int, sy: int, ex: int, ey: int)
    requires
        wf(v),
        sign_of(colour_at(v, sx, sy)) == v.turn,
        pseudo_pred(v, sx, sy, ex, ey),
        !in_check_spec(v),
    ensures
        at(v, ex, ey).piece_type != PieceTypes::KING,
{
    assert(piece_ok(at(v, ex, ey)));
    if at(v, ex, ey).piece_type == PieceTypes::KING {
        let own = king_of(side_colour(v.turn));
        let opp = prev_mover_king(v);
        if at(v, ex, ey) == own {
            // the mover's own king stands on the start square, so a move
            // onto it would be a null move
            if at(v, sx, sy) == own {
                assert(ix(sx, sy) == ix(ex, ey));
                assert(sx == ex && sy == ey);
                assert(false);
            } else {
                assert(false);
            }
        } else {
            assert(at(v, ex, ey) == opp);
            let kix = king_sq_ix(v);
            assert(v.board[kix] == opp);
            assert(kix == ix(ex, ey));
            assert(kix / 8 == ex && kix % 8 == ey);
            assert(attacked(v, ex, ey));
            assert(false);
        }
    }
}

/// Playing a pseudo-legal move that does not capture a king preserves
/// well-formedness of the position.
pub proof fn lemma_apply_wf(v: PositionV, sx: int, sy: int, ex: int, ey: int)
    requires
        wf(v),
        sign_of(colour_at(v, sx, sy)) == v.turn,
        pseudo_pred(v, sx, sy, ex, ey),
        at(v, ex, ey).piece_type != PieceTypes::KING,
    ensures
        wf(apply_spec(v, gen_move(v, sx, sy, ex, ey))),
{
    lemma_pseudo_consistent(v, sx, sy, ex, ey);
    lemma_apply_basic(v, sx, sy, ex, ey);
    let m = gen_move(v, sx, sy, ex, ey);
    let v2 = apply_spec(v, m);
    assert(piece_ok(at(v, sx, sy)));
    // the en-passant file of the new position matches its history, and a
    // double push leaves its pawn on the bypassed file
    assert(v2.history.last() == m);
    if is_double_spec(m) {
        assert(v2.board[ix(ex, ey)] == m.start_piece);
    }
    // the opponent's king is untouched: nothing written is a king of its
    // colour and no touched square held it
    let oc = side_colour(-v.turn);
    let okp = king_of(oc);
    let oki = choose|i: int| 0 <= i < 64 && v.board[i] == okp;
    assert(at(v, ex, ey) != okp);
    assert(at(v, sx, sy) != okp);
    assert(v2.board[oki] == okp);
    assert forall|i: int, j: int|
        0 <= i < 64 && 0 <= j < 64 && #[trigger] v2.board[i] == okp && #[trigger] v2.board[j]
            == okp implies i == j by {
        assert(piece_ok(v.board[i]) && piece_ok(v.board[j]));
    }
    assert(has_king(v2, Colours::WHITE) && has_king(v2, Colours::BLACK)) by {
        if v.turn == 1 {
            assert(side_colour(v.turn) == Colours::WHITE && oc == Colours::BLACK);
        } else {
            assert(side_colour(v.turn) == Colours::BLACK && oc == Colours::WHITE);
        }
    }
}


/// A position the game loop and the search can act on: well formed, and
/// the side that just moved is not in check (as every position reached by
/// legal moves satisfies).
pub open spec fn playable(v: PositionV) -> bool {
    wf(v) && !in_check_spec(v)
}

/// The castling-through-check rule, probed on the position after the move:
/// neither the king's start square nor the square it crossed may be
/// attacked by the opponent.
pub open spec fn castle_passage_ok(v: PositionV, m: Move) -> bool {
    let v2 = apply_spec(v, m);
    let h = m.start_y as int;
    if m.kind == MoveKinds::CastleKingside {
        !attacked(v2, 4, h) && !attacked(v2, 5, h)
    } else if m.kind == MoveKinds::CastleQueenside {
        !attacked(v2, 4, h) && !attacked(v2, 3, h)
    } else {
        true
    }
}

/// Playing `m` leaves the mover's own king in check.
pub open spec fn in_check_after(v: PositionV, m: Move) -> bool {
    in_check_spec(apply_spec(v, m))
}

/// A legal move: pseudo-legal, not castling out of or through check, and
/// not leaving the mover's own king in check.
pub open spec fn legal_pred(v: PositionV, sx: int, sy: int, ex: int, ey: int) -> bool {
    &&& pseudo_pred(v, sx, sy, ex, ey)
    &&& castle_passage_ok(v, gen_move(v, sx, sy, ex, ey))
    &&& !in_check_after(v, gen_move(v, sx, sy, ex, ey))
}

/// `m` is a legal move of the piece on (sx, sy).
pub open spec fn legal_from(v: PositionV, sx: int, sy: int, m: Move) -> bool {
    exists|ex: int, ey: int|
        legal_pred(v, sx, sy, ex, ey) && m == #[trigger] gen_move(v, sx, sy, ex, ey)
}


/// No move record occurs twice in the list.
pub open spec fn distinct_moves(s: Seq<Move>) -> bool {
    forall|i: int, j: int| 0 <= i < j < s.len() ==> s[i] != s[j]
}

/// Two duplicate-free lists with no record in common concatenate to a
/// duplicate-free list.
proof fn lemma_distinct_append(a: Seq<Move>, b: Seq<Move>)
    requires
        distinct_moves(a),
        distinct_moves(b),
        forall|m: Move| #[trigger] b.contains(m) ==> !a.contains(m),
    ensures
        distinct_moves(a + b),
{
    assert forall|i: int, j: int| 0 <= i < j < (a + b).len() implies (a + b)[i] != (a + b)[j] by {
        if i < a.len() && j >= a.len() {
            assert((a + b)[i] == a[i] && (a + b)[j] == b[j - a.len()]);
            if a[i] == b[j - a.len()] {
                assert(a.contains(a[i]));
                assert(b.contains(a[i]));
            }
        } else if i >= a.len() {
            assert((a + b)[i] == b[i - a.len()] && (a + b)[j] == b[j - a.len()]);
        } else {
            assert((a + b)[i] == a[i] && (a + b)[j] == a[j]);
        }
    }
}

/// Whether the list already holds this move record.
fn vec_has_move(v: &Vec<Move>, m: Move) -> (r: bool)
    ensures
        r == v@.contains(m),
{
    let mut i: usize = 0;
    while i < v.len()
        invariant
            i <= v@.len(),
            forall|j: int| 0 <= j < i ==> v@[j] != m,
        decreases v@.len() - i,
    {
        if v[i] == m {
            proof {
                assert(v@.contains(m));
            }
            return true;
        }
        i = i + 1;
    }
    false
}

/// The legal moves of the piece of the side to move on (x, y): each
/// pseudo-legal move is played, probed for king safety (and, for a castle,
/// for the crossed squares), and reverted; the position comes back exactly
/// as it was.
pub fn get_piece_legal_moves(game_position: &mut Position, x: i32, y: i32) -> (r: Vec<Move>)
    requires
        0 <= x < 8,
        0 <= y < 8,
        wf(old(game_position)@),
        sign_of(colour_at(old(game_position)@, x as int, y as int)) == old(game_position)@.turn,
    ensures
        final(game_position)@ == old(game_position)@,
        forall|m: Move|
            r@.contains(m) <==> legal_from(old(game_position)@, x as int, y as int, m),
        distinct_moves(r@),
{
    broadcast use vstd::seq_lib::lemma_seq_contains_after_push;

    let ghost v = old(game_position)@;
    proof {
        assert(piece_ok(at(v, x as int, y as int)));
    }
    let possible_moves = get_piece_possible_moves(game_position, x, y);
    let mut legal_moves: Vec<Move> = Vec::new();
    let mut i: usize = 0;
    while i < possible_moves.len()
        invariant
            0 <= x < 8,
            0 <= y < 8,
            i <= possible_moves@.len(),
            game_position@ == v,
            wf(v),
            sign_of(colour_at(v, x as int, y as int)) == v.turn,
            forall|m: Move|
                possible_moves@.contains(m) <==> exists|ex: int, ey: int|
                    pseudo_pred(v, x as int, y as int, ex, ey) && m == #[trigger] gen_move(
                        v,
                        x as int,
                        y as int,
                        ex,
                        ey,
                    ),
            forall|m: Move|
                legal_moves@.contains(m) <==> (possible_moves@.take(i as int).contains(m)
                    && legal_from(v, x as int, y as int, m)),
            distinct_moves(legal_moves@),
        decreases possible_moves@.len() - i,
    {
        broadcast use vstd::seq_lib::lemma_seq_contains_after_push;

        let m = possible_moves[i];
        let ghost gex: int;
        let ghost gey: int;
        proof {
            assert(possible_moves@.contains(m));
            let (ex, ey) = choose|ex: int, ey: int|
                pseudo_pred(v, x as int, y as int, ex, ey) && m == #[trigger] gen_move(
                    v,
                    x as int,
                    y as int,
                    ex,
                    ey,
                );
            gex = ex;
            gey = ey;
            lemma_pseudo_consistent(v, x as int, y as int, gex, gey);
            lemma_apply_basic(v, x as int, y as int, gex, gey);
        }
        play_move(game_position, m);
        proof {
            assert(game_position@ == apply_spec(v, m));
        }
        let mut ok = true;
        // a castle must not carry the king out of or through an attacked
        // square
        if m.kind == MoveKinds::CastleKingside {
            if is_square_check(game_position, 4, m.start_y as i32) || is_square_check(
                game_position,
                5,
                m.start_y as i32,
            ) {
                ok = false;
            }
        }
        if m.kind == MoveKinds::CastleQueenside {
            if is_square_check(game_position, 4, m.start_y as i32) || is_square_check(
                game_position,
                3,
                m.start_y as i32,
            ) {
                ok = false;
            }
        }
        proof {
            assert(ok == castle_passage_ok(v, m));
        }
        // the mover's own king must not be left in check
        if ok {
            if is_check(game_position) {
                ok = false;
            }
        }
        proof {
            assert(ok == (castle_passage_ok(v, m) && !in_check_after(v, m)));
        }
        undo_move(game_position);
        proof {
            crate::apply::lemma_play_then_undo(v, m);
            assert(game_position@ == v);
        }
        if ok {
            // a record can be generated along two disjuncts (a capture
            // that also matches the en-passant file); keep it once
            if !vec_has_move(&legal_moves, m) {
                let ghost pre_push = legal_moves@;
                legal_moves.push(m);
                proof {
                    assert forall|i1: int, j1: int|
                        0 <= i1 < j1 < legal_moves@.len() implies legal_moves@[i1]
                        != legal_moves@[j1] by {
                        if j1 == pre_push.len() {
                            assert(legal_moves@[i1] == pre_push[i1]);
                            if pre_push[i1] == m {
                                assert(pre_push.contains(m));
                            }
                        }
                    }
                }
            }
        }
        proof {
            assert(possible_moves@.take(i as int + 1) =~= possible_moves@.take(i as int).push(
                possible_moves@[i as int],
            ));
            assert(ok == legal_from(v, x as int, y as int, m)) by {
                if legal_from(v, x as int, y as int, m) {
                    let (ex, ey) = choose|ex: int, ey: int|
                        legal_pred(v, x as int, y as int, ex, ey) && m == #[trigger] gen_move(
                            v,
                            x as int,
                            y as int,
                            ex,
                            ey,
                        );
                    assert(castle_passage_ok(v, m) && !in_check_after(v, m));
                }
                if ok {
                    assert(legal_pred(v, x as int, y as int, gex, gey));
                }
            }
        }
        i = i + 1;
    }
    proof {
        assert(possible_moves@.take(possible_moves@.len() as int) =~= possible_moves@);
        assert forall|m: Move|
            legal_from(v, x as int, y as int, m) implies possible_moves@.contains(m) by {
            let (ex, ey) = choose|ex: int, ey: int|
                legal_pred(v, x as int, y as int, ex, ey) && m == #[trigger] gen_move(
                    v,
                    x as int,
                    y as int,
                    ex,
                    ey,
                );
        }
    }
    legal_moves
}


/// `m` is a legal move of the side to move, from any square.
pub open spec fn any_legal(v: PositionV, m: Move) -> bool {
    exists|sx: int, sy: int, ex: int, ey: int|
        on_board(sx, sy) && sign_of(colour_at(v, sx, sy)) == v.turn && legal_pred(v, sx, sy, ex, ey)
            && m == #[trigger] gen_move(v, sx, sy, ex, ey)
}

/// `any_legal` restricted to source squares with flat index below `n`.
pub open spec fn any_legal_before(v: PositionV, m: Move, n: int) -> bool {
    exists|sx: int, sy: int, ex: int, ey: int|
        on_board(sx, sy) && ix(sx, sy) < n && sign_of(colour_at(v, sx, sy)) == v.turn && legal_pred(
            v,
            sx,
            sy,
            ex,
            ey,
        ) && m == #[trigger] gen_move(v, sx, sy, ex, ey)
}

/// All legal moves of the side to move, across the whole board. An empty
/// result means the game is over: checkmate when `is_check` holds on the
/// side to move (probe it by flipping the turn), stalemate otherwise. The
/// position is handed back exactly as it was.
pub fn get_all_legal_moves(game_position: &mut Position) -> (r: Vec<Move>)
    requires
        wf(old(game_position)@),
    ensures
        final(game_position)@ == old(game_position)@,
        forall|m: Move| r@.contains(m) <==> any_legal(old(game_position)@, m),
        distinct_moves(r@),
{
    broadcast use crate::movegen::lemma_contains_add;

    let ghost v = old(game_position)@;
    let mut all_legal_moves: Vec<Move> = Vec::new();
    let mut x: usize = 0;
    while x < 8
        invariant
            x <= 8,
            game_position@ == v,
            wf(v),
            forall|m: Move|
                all_legal_moves@.contains(m) <==> any_legal_before(v, m, (x * 8) as int),
            distinct_moves(all_legal_moves@),
        decreases 8 - x,
    {
        let mut y: usize = 0;
        while y < 8
            invariant
                x < 8,
                y <= 8,
                game_position@ == v,
                wf(v),
                forall|m: Move|
                    all_legal_moves@.contains(m) <==> any_legal_before(v, m, (x * 8 + y) as int),
                distinct_moves(all_legal_moves@),
            decreases 8 - y,
        {
            let ghost n = ix(x as int, y as int);
            let piece = piece_at(game_position, x, y);
            if colour_sign(piece.colour) == game_position.turn {
                let ghost pre = all_legal_moves@;
                let mut lm = get_piece_legal_moves(game_position, x as i32, y as i32);
                let ghost lmv = lm@;
                all_legal_moves.append(&mut lm);
                proof {
                    // this square's moves start on it; everything already
                    // collected starts on an earlier square
                    assert forall|m: Move| #[trigger] lmv.contains(m) implies !pre.contains(m) by {
                        let (ex, ey) = choose|ex: int, ey: int|
                            legal_pred(v, x as int, y as int, ex, ey) && m == #[trigger] gen_move(
                                v,
                                x as int,
                                y as int,
                                ex,
                                ey,
                            );
                        if pre.contains(m) {
                            let (sx, sy, ex2, ey2) = choose|sx: int, sy: int, ex2: int, ey2: int|
                                on_board(sx, sy) && ix(sx, sy) < n && sign_of(colour_at(v, sx, sy))
                                    == v.turn && legal_pred(v, sx, sy, ex2, ey2) && m
                                    == #[trigger] gen_move(v, sx, sy, ex2, ey2);
                            assert(m.start_x as int == sx && m.start_y as int == sy);
                            assert(m.start_x as int == x as int && m.start_y as int == y as int);
                            assert(false);
                        }
                    }
                    lemma_distinct_append(pre, lmv);
                    assert forall|m: Move|
                        all_legal_moves@.contains(m) implies any_legal_before(v, m, n + 1) by {
                        if pre.contains(m) {
                            let (sx, sy, ex, ey) = choose|sx: int, sy: int, ex: int, ey: int|
                                on_board(sx, sy) && ix(sx, sy) < n && sign_of(colour_at(v, sx, sy))
                                    == v.turn && legal_pred(v, sx, sy, ex, ey) && m
                                    == #[trigger] gen_move(v, sx, sy, ex, ey);
                            assert(ix(sx, sy) < n + 1);
                        } else {
                            assert(lmv.contains(m));
                            let (ex, ey) = choose|ex: int, ey: int|
                                legal_pred(v, x as int, y as int, ex, ey) && m == #[trigger] gen_move(
                                    v,
                                    x as int,
                                    y as int,
                                    ex,
                                    ey,
                                );
                            assert(ix(x as int, y as int) < n + 1);
                        }
                    }
                    assert forall|m: Move|
                        any_legal_before(v, m, n + 1) implies all_legal_moves@.contains(m) by {
                        let (sx, sy, ex, ey) = choose|sx: int, sy: int, ex: int, ey: int|
                            on_board(sx, sy) && ix(sx, sy) < n + 1 && sign_of(colour_at(v, sx, sy))
                                == v.turn && legal_pred(v, sx, sy, ex, ey) && m
                                == #[trigger] gen_move(v, sx, sy, ex, ey);
                        if ix(sx, sy) == n {
                            assert(sx == x as int && sy == y as int);
                            assert(legal_from(v, x as int, y as int, m));
                            assert(lmv.contains(m));
                        } else {
                            assert(any_legal_before(v, m, n));
                            assert(pre.contains(m));
                        }
                        crate::movegen::lemma_contains_add(pre, lmv, m);
                        assert((pre + lmv).contains(m));
                    }
                }
            } else {
                proof {
                    assert forall|m: Move|
                        any_legal_before(v, m, n + 1) implies any_legal_before(v, m, n) by {
                        let (sx, sy, ex, ey) = choose|sx: int, sy: int, ex: int, ey: int|
                            on_board(sx, sy) && ix(sx, sy) < n + 1 && sign_of(colour_at(v, sx, sy))
                                == v.turn && legal_pred(v, sx, sy, ex, ey) && m
                                == #[trigger] gen_move(v, sx, sy, ex, ey);
                        if ix(sx, sy) == n {
                            assert(sx == x as int && sy == y as int);
                            assert(false);
                        }
                    }
                    assert forall|m: Move|
                        any_legal_before(v, m, n) implies any_legal_before(v, m, n + 1) by {
                        let (sx, sy, ex, ey) = choose|sx: int, sy: int, ex: int, ey: int|
                            on_board(sx, sy) && ix(sx, sy) < n && sign_of(colour_at(v, sx, sy))
                                == v.turn && legal_pred(v, sx, sy, ex, ey) && m
                                == #[trigger] gen_move(v, sx, sy, ex, ey);
                        assert(ix(sx, sy) < n + 1);
                    }
                }
            }
            y = y + 1;
        }
        x = x + 1;
    }
    proof {
        assert forall|m: Move| any_legal(v, m) implies any_legal_before(v, m, 64) by {
            let (sx, sy, ex, ey) = choose|sx: int, sy: int, ex: int, ey: int|
                on_board(sx, sy) && sign_of(colour_at(v, sx, sy)) == v.turn && legal_pred(
                    v,
                    sx,
                    sy,
                    ex,
                    ey,
                ) && m == #[trigger] gen_move(v, sx, sy, ex, ey);
            assert(ix(sx, sy) < 64);
        }
    }
    all_legal_moves
}

/// A square a legal move of the piece on (sx, sy) can land on.
pub open spec fn legal_dest(v: PositionV, sx: int, sy: int, i: int) -> bool {
    exists|ex: int, ey: int| #[trigger] legal_pred(v, sx, sy, ex, ey) && ix(ex, ey) == i
}

/// Tags exactly the destinations of the legal moves of the piece on
/// (x, y) with the legal-destination highlight, for the front end to
/// render; every other square keeps its highlight tag, and the game state
/// itself is unchanged.
pub fn highlight_piece_legal_moves(game_position: &mut Position, x: i32, y: i32)
    requires
        0 <= x < 8,
        0 <= y < 8,
        wf(old(game_position)@),
        sign_of(colour_at(old(game_position)@, x as int, y as int)) == old(game_position)@.turn,
    ensures
        final(game_position)@ == old(game_position)@,
        forall|i: int|
            0 <= i < 64 ==> crate::board::hl_view(*final(game_position))[i] == (if legal_dest(
                old(game_position)@,
                x as int,
                y as int,
                i,
            ) {
                crate::board::Highlights::LEGAL
            } else {
                crate::board::hl_view(*old(game_position))[i]
            }),
{
    let ghost v = old(game_position)@;
    let ghost h0 = crate::board::hl_view(*old(game_position));

    // snapshot the highlight tags: the probing filter below moves the
    // previous-move markers around while it plays and undoes candidates
    let mut saved: Vec<crate::board::Highlights> = Vec::new();
    let mut i: usize = 0;
    while i < 64
        invariant
            i <= 64,
            saved@.len() == i,
            game_position@ == v,
            h0 == crate::board::hl_view(*game_position),
            forall|j: int| 0 <= j < i ==> saved@[j] == h0[j],
        decreases 64 - i,
    {
        saved.push(crate::board::highlight_at(game_position, i / 8, i % 8));
        i = i + 1;
    }

    let legal_moves = get_piece_legal_moves(game_position, x, y);
    proof {
        assert forall|j: int|
            0 <= j < legal_moves@.len() implies crate::board::move_in_bounds(
            #[trigger] legal_moves@[j],
        ) && legal_dest(v, x as int, y as int, ix(
            legal_moves@[j].end_x as int,
            legal_moves@[j].end_y as int,
        )) by {
            let m = legal_moves@[j];
            assert(legal_moves@.contains(m));
            let (ex, ey) = choose|ex: int, ey: int|
                legal_pred(v, x as int, y as int, ex, ey) && m == #[trigger] gen_move(
                    v,
                    x as int,
                    y as int,
                    ex,
                    ey,
                );
            lemma_pseudo_on_board(v, x as int, y as int, ex, ey);
            assert(m.end_x as int == ex && m.end_y as int == ey);
        }
    }

    // put every highlight tag back as it was
    let mut i2: usize = 0;
    while i2 < 64
        invariant
            i2 <= 64,
            saved@.len() == 64,
            game_position@ == v,
            forall|j: int| 0 <= j < 64 ==> saved@[j] == h0[j],
            forall|j: int| 0 <= j < i2 ==> crate::board::hl_view(*game_position)[j] == h0[j],
        decreases 64 - i2,
    {
        crate::board::set_highlight(game_position, i2 / 8, i2 % 8, saved[i2]);
        i2 = i2 + 1;
    }

    // tag the legal destinations
    let mut k: usize = 0;
    while k < legal_moves.len()
        invariant
            k <= legal_moves@.len(),
            game_position@ == v,
            forall|j: int|
                0 <= j < legal_moves@.len() ==> crate::board::move_in_bounds(
                    #[trigger] legal_moves@[j],
                ),
            forall|t: int|
                0 <= t < k ==> crate::board::hl_view(*game_position)[ix(
                    #[trigger] legal_moves@[t].end_x as int,
                    legal_moves@[t].end_y as int,
                )] == crate::board::Highlights::LEGAL,
            forall|j: int|
                0 <= j < 64 && (forall|t: int|
                    0 <= t < k ==> ix(
                        #[trigger] legal_moves@[t].end_x as int,
                        legal_moves@[t].end_y as int,
                    ) != j) ==> crate::board::hl_view(*game_position)[j] == h0[j],
        decreases legal_moves@.len() - k,
    {
        let m = legal_moves[k];
        crate::board::set_highlight(
            game_position,
            m.end_x,
            m.end_y,
            crate::board::Highlights::LEGAL,
        );
        k = k + 1;
    }
    proof {
        assert forall|i3: int| 0 <= i3 < 64 implies crate::board::hl_view(*game_position)[i3] == (
        if legal_dest(v, x as int, y as int, i3) {
            crate::board::Highlights::LEGAL
        } else {
            h0[i3]
        }) by {
            if legal_dest(v, x as int, y as int, i3) {
                let (ex, ey) = choose|ex: int, ey: int|
                    #[trigger] legal_pred(v, x as int, y as int, ex, ey) && ix(ex, ey) == i3;
                lemma_pseudo_on_board(v, x as int, y as int, ex, ey);
                let m = gen_move(v, x as int, y as int, ex, ey);
                assert(legal_from(v, x as int, y as int, m));
                assert(legal_moves@.contains(m));
                let t = choose|t: int| 0 <= t < legal_moves@.len() && legal_moves@[t] == m;
                assert(m.end_x as int == ex && m.end_y as int == ey);
                assert(ix(legal_moves@[t].end_x as int, legal_moves@[t].end_y as int) == i3);
            } else {
                assert forall|t: int|
                    0 <= t < legal_moves@.len() implies ix(
                    #[trigger] legal_moves@[t].end_x as int,
                    legal_moves@[t].end_y as int,
                ) != i3 by {
                    assert(legal_dest(v, x as int, y as int, ix(
                        legal_moves@[t].end_x as int,
                        legal_moves@[t].end_y as int,
                    )));
                }
            }
        }
    }
}

/// Reversibility for legal moves: playing any legal move of a well-formed
/// position and undoing it restores the game state exactly — board, side
/// to move, en-passant file, castling rights and history.
pub proof fn lemma_legal_move_round_trip(v: PositionV, m: Move)
    requires
        wf(v),
        any_legal(v, m),
    ensures
        undo_spec(apply_spec(v, m)) == v,
{
    let (sx, sy, ex, ey) = choose|sx: int, sy: int, ex: int, ey: int|
        on_board(sx, sy) && sign_of(colour_at(v, sx, sy)) == v.turn && legal_pred(v, sx, sy, ex, ey)
            && m == #[trigger] gen_move(v, sx, sy, ex, ey);
    lemma_pseudo_consistent(v, sx, sy, ex, ey);
    crate::apply::lemma_play_then_undo(v, m);
}

/// Any move that is not a double pawn push closes the en-passant file.
pub proof fn lemma_ep_file_closes(v: PositionV, m: Move)
    requires
        !is_double_spec(m),
    ensures
        apply_spec(v, m).en_passant == -1,
{
}

/// While no en-passant file is open, no pseudo-legal move is an en-passant
/// capture: with `lemma_ep_file_closes`, the capture window lasts exactly
/// one ply.
pub proof fn lemma_no_ep_without_file(v: PositionV, sx: int, sy: int, ex: int, ey: int)
    requires
        v.en_passant == -1,
        pseudo_pred(v, sx, sy, ex, ey),
    ensures
        gen_move(v, sx, sy, ex, ey).kind != MoveKinds::EnPassant,
{
    let m = gen_move(v, sx, sy, ex, ey);
    if m.kind == MoveKinds::EnPassant {
        // the capture disjunct needs an enemy piece on the target square,
        // which the en-passant pattern excludes; the en-passant disjunct
        // needs the file to be open
        assert(crate::board::is_ep_pattern(
            m.start_piece,
            m.end_piece,
            sx,
            sy,
            ex,
            ey,
        ));
        assert(false);
    }
}

/// White's kingside castle is legal only if f1 and g1 are empty, the
/// kingside right is still held, the rook stands on h1, and neither e1 nor
/// f1 nor the king's destination g1 is attacked once the move is made.
pub proof fn lemma_castle_kingside_conditions(v: PositionV)
    requires
        wf(v),
        v.turn == 1,
        at(v, 4, 0) == spec_white_king_piece(),
        legal_pred(v, 4, 0, 6, 0),
    ensures
        colour_at(v, 5, 0) == Colours::EMPTY,
        colour_at(v, 6, 0) == Colours::EMPTY,
        crate::apply::rights_top(v).white_kingside,
        at(v, 7, 0) == crate::board::spec_white_rook_piece(),
        !attacked(apply_spec(v, gen_move(v, 4, 0, 6, 0)), 4, 0),
        !attacked(apply_spec(v, gen_move(v, 4, 0, 6, 0)), 5, 0),
        !in_check_after(v, gen_move(v, 4, 0, 6, 0)),
{
    let m = gen_move(v, 4, 0, 6, 0);
    assert(crate::movegen::castle_kingside_pred(v, 4, 0, 6, 0));
    assert(m.kind == MoveKinds::CastleKingside);
    assert(castle_passage_ok(v, m));
}

/// Moving the rook off a1 clears white's queenside castling right and
/// leaves the kingside right as it was.
pub proof fn lemma_a1_rook_move_rights(v: PositionV, m: Move)
    requires
        m.start_piece == crate::board::spec_white_rook_piece(),
        m.start_x == 0,
        m.start_y == 0,
    ensures
        !crate::apply::rights_top(apply_spec(v, m)).white_queenside,
        crate::apply::rights_top(apply_spec(v, m)).white_kingside == crate::apply::rights_top(
            v,
        ).white_kingside,
{
    assert(apply_spec(v, m).rights.last() == crate::apply::next_rights(v, m));
}


/// Progress: from a playable position, any legal move can be played — it
/// is a consistent transition — and the position it leads to is itself
/// playable, so games and searches can keep stepping.
pub proof fn lemma_playable_step(v: PositionV, m: Move)
    requires
        playable(v),
        any_legal(v, m),
    ensures
        crate::board::move_in_bounds(m),
        m.start_piece == at(v, m.start_x as int, m.start_y as int),
        turn_ok(v),
        history_in_bounds(v),
        v.board.len() == 64,
        crate::board::ep_ok(v),
        move_consistent(v, m),
        playable(apply_spec(v, m)),
{
    let (sx, sy, ex, ey) = choose|sx: int, sy: int, ex: int, ey: int|
        on_board(sx, sy) && sign_of(colour_at(v, sx, sy)) == v.turn && legal_pred(v, sx, sy, ex, ey)
            && m == #[trigger] gen_move(v, sx, sy, ex, ey);
    lemma_pseudo_consistent(v, sx, sy, ex, ey);
    lemma_no_king_capture(v, sx, sy, ex, ey);
    lemma_apply_wf(v, sx, sy, ex, ey);
    assert(!in_check_after(v, m));
}


/// King safety: a move that leaves the mover's own king attacked — for
/// instance a pinned piece stepping off its line — is never in the legal
/// move set, even when it is pseudo-legal.
pub proof fn lemma_legal_excludes_self_check(v: PositionV, m: Move)
    requires
        any_legal(v, m),
    ensures
        !in_check_after(v, m),
{
    let (sx, sy, ex, ey) = choose|sx: int, sy: int, ex: int, ey: int|
        on_board(sx, sy) && sign_of(colour_at(v, sx, sy)) == v.turn && legal_pred(v, sx, sy, ex, ey)
            && m == #[trigger] gen_move(v, sx, sy, ex, ey);
}

} // verus!
