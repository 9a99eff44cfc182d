//! Search: material-only evaluation and fixed-depth minimax with
//! alpha-beta pruning, maximising for white and minimising for black, with
//! a uniformly random choice among the moves that share the best score.

use vstd::prelude::*;

use rand::RngExt;

use crate::apply::{apply_spec, lemma_play_then_undo, play_move, undo_move};
use crate::board::{
    colour_sign, gen_move, ix, on_board, piece_at, sign_of, Move, Piece, PieceTypes, Position,
    PositionV,
};
use crate::legality::{any_legal, get_all_legal_moves, legal_pred, playable};
use crate::movegen::colour_at;

verus! {

/// The material value of one piece, signed by its colour: pawn 1,
/// knight and bishop 3, rook 5, queen 9, king 0.
pub open spec fn piece_value(p: Piece) -> int {
    sign_of(p.colour) * (match p.piece_type {
        PieceTypes::PAWN => 1int,
        PieceTypes::ROOK => 5int,
        PieceTypes::KNIGHT => 3int,
        PieceTypes::BISHOP => 3int,
        PieceTypes::QUEEN => 9int,
        PieceTypes::KING => 0int,
        PieceTypes::BLANK => 0int,
    })
}

/// The material sum of the first `n` squares of the board.
pub open spec fn eval_upto(b: Seq<Piece>, n: int) -> int
    decreases n,
{
    if n <= 0 {
        0
    } else {
        eval_upto(b, n - 1) + piece_value(b[n - 1])
    }
}

/// The material count of the whole board.
pub open spec fn eval_spec(b: Seq<Piece>) -> int {
    eval_upto(b, 64)
}

pub proof fn lemma_piece_value_bound(p: Piece)
    ensures
        -9 <= piece_value(p) <= 9,
{
    assert(-1 <= sign_of(p.colour) <= 1);
}

pub proof fn lemma_eval_bound(b: Seq<Piece>, n: int)
    requires
        0 <= n,
    ensures
        -9 * n <= eval_upto(b, n) <= 9 * n,
    decreases n,
{
    if n > 0 {
        lemma_eval_bound(b, n - 1);
        lemma_piece_value_bound(b[n - 1]);
    }
}

/// The static evaluation: the signed material count of the board.
pub fn evaluate_position(game_position: &Position) -> (score: i64)
    ensures
        score as int == eval_spec(game_position@.board),
        -576 <= score <= 576,
{
    let ghost v = game_position@;
    let mut score: i64 = 0;
    let mut x: usize = 0;
    while x < 8
        invariant
            x <= 8,
            v == game_position@,
            score as int == eval_upto(v.board, (x * 8) as int),
            -9 * (x * 8) as int <= score as int <= 9 * (x * 8) as int,
        decreases 8 - x,
    {
        let mut y: usize = 0;
        while y < 8
            invariant
                x < 8,
                y <= 8,
                v == game_position@,
                score as int == eval_upto(v.board, (x * 8 + y) as int),
                -9 * (x * 8 + y) as int <= score as int <= 9 * (x * 8 + y) as int,
            decreases 8 - y,
        {
            let piece = piece_at(game_position, x, y);
            let s = colour_sign(piece.colour) as i64;
            let value: i64 = match piece.piece_type {
                PieceTypes::PAWN => 1,
                PieceTypes::ROOK => 5,
                PieceTypes::KNIGHT => 3,
                PieceTypes::BISHOP => 3,
                PieceTypes::QUEEN => 9,
                PieceTypes::KING => 0,
                PieceTypes::BLANK => 0,
            };
            proof {
                assert(s * value == piece_value(v.board[ix(x as int, y as int)]));
                lemma_piece_value_bound(v.board[ix(x as int, y as int)]);
            }
            score = score + s * value;
            y = y + 1;
        }
        x = x + 1;
    }
    score
}

/// Depth-limited minimax with alpha-beta pruning over the legal moves,
/// maximising when white is to move. The result is the exact minimax value
/// `mm_pos` whenever that value lies inside the (alpha, beta) window, and
/// a sound bound on it otherwise (the standard fail-soft guarantee); depth
/// zero returns exactly the static material evaluation. The position
/// always comes back exactly as it was: every branch is explored by a play
/// that is undone afterwards.
pub fn minimax(position: &mut Position, depth: usize, alpha: i64, beta: i64, is_white: bool) -> (r:
    i64)
    requires
        playable(old(position)@),
        -99999 <= alpha <= 99999,
        -99999 <= beta <= 99999,
        alpha < beta,
        is_white == (old(position)@.turn == 1),
    ensures
        final(position)@ == old(position)@,
        -99999 <= r <= 99999,
        depth == 0 ==> r as int == eval_spec(old(position)@.board),
        r <= alpha ==> mm_pos(old(position)@, depth as nat) <= r,
        r >= beta ==> mm_pos(old(position)@, depth as nat) >= r,
        alpha < r < beta ==> r as int == mm_pos(old(position)@, depth as nat),
    decreases depth,
{
    let ghost v = old(position)@;
    if depth == 0 {
        return evaluate_position(position);
    }
    proof {
        lemma_mm_pos_characterization(v, depth as nat);
        lemma_mm_bounds(v, depth as nat);
    }
    let ghost d = depth as nat;
    let moves = get_all_legal_moves(position);
    if is_white {
        let mut max_eval: i64 = -99999;
        let mut a = alpha;
        let mut i: usize = 0;
        while i < moves.len()
            invariant
                i <= moves@.len(),
                position@ == v,
                v == old(position)@,
                playable(v),
                v.turn == 1,
                depth >= 1,
                d == depth as nat,
                -99999 <= alpha <= 99999,
                -99999 <= beta <= 99999,
                alpha < beta,
                -99999 <= a <= 99999,
                a < beta,
                -99999 <= max_eval <= 99999,
                a as int == (if alpha >= max_eval {
                    alpha as int
                } else {
                    max_eval as int
                }),
                forall|m: Move| moves@.contains(m) <==> any_legal(v, m),
                forall|j: int| 0 <= j < i ==> mm_of(v, #[trigger] moves@[j], d) <= max_eval as int,
                max_eval <= alpha || exists|j: int|
                    0 <= j < i && mm_of(v, #[trigger] moves@[j], d) == max_eval as int,
            decreases moves@.len() - i,
        {
            let m = moves[i];
            proof {
                assert(moves@.contains(m));
                crate::legality::lemma_playable_step(v, m);
            }
            play_move(position, m);
            let eval = minimax(position, depth - 1, a, beta, false);
            undo_move(position);
            proof {
                lemma_play_then_undo(v, m);
                assert(mm_pos(apply_spec(v, m), (depth - 1) as nat) == mm_of(v, m, d));
                lemma_mm_pos_characterization(v, d);
            }
            if eval > max_eval {
                max_eval = eval;
            }
            if eval > a {
                a = eval;
            }
            if beta <= a {
                proof {
                    assert(any_legal(v, m));
                    assert(eval as int >= beta);
                    assert(mm_of(v, m, d) >= eval as int);
                    assert(mm_pos(v, d) >= mm_of(v, m, d));
                }
                return max_eval;
            }
            i = i + 1;
        }
        proof {
            lemma_mm_pos_characterization(v, d);
            if max_eval > alpha {
                let j = choose|j: int| 0 <= j < i && mm_of(v, #[trigger] moves@[j], d)
                    == max_eval as int;
                assert(moves@.contains(moves@[j]));
                assert(any_legal(v, moves@[j]));
                assert(mm_pos(v, d) >= max_eval as int);
            }
            if mm_pos(v, d) != mm_default(1) {
                let mstar = choose|m: Move|
                    #[trigger] any_legal(v, m) && mm_of(v, m, d) == mm_pos(v, d);
                assert(moves@.contains(mstar));
                let jstar = choose|j: int| 0 <= j < moves@.len() && moves@[j] == mstar;
                assert(mm_of(v, moves@[jstar], d) <= max_eval as int);
                assert(mm_pos(v, d) <= max_eval as int);
            } else {
                assert(mm_pos(v, d) == -99999);
            }
        }
        max_eval
    } else {
        let mut min_eval: i64 = 99999;
        let mut b = beta;
        let mut i: usize = 0;
        while i < moves.len()
            invariant
                i <= moves@.len(),
                position@ == v,
                v == old(position)@,
                playable(v),
                v.turn == -1,
                depth >= 1,
                d == depth as nat,
                -99999 <= alpha <= 99999,
                -99999 <= beta <= 99999,
                alpha < beta,
                -99999 <= b <= 99999,
                alpha < b,
                -99999 <= min_eval <= 99999,
                b as int == (if beta <= min_eval {
                    beta as int
                } else {
                    min_eval as int
                }),
                forall|m: Move| moves@.contains(m) <==> any_legal(v, m),
                forall|j: int| 0 <= j < i ==> mm_of(v, #[trigger] moves@[j], d) >= min_eval as int,
                min_eval >= beta || exists|j: int|
                    0 <= j < i && mm_of(v, #[trigger] moves@[j], d) == min_eval as int,
            decreases moves@.len() - i,
        {
            let m = moves[i];
            proof {
                assert(moves@.contains(m));
                crate::legality::lemma_playable_step(v, m);
            }
            play_move(position, m);
            let eval = minimax(position, depth - 1, alpha, b, true);
            undo_move(position);
            proof {
                lemma_play_then_undo(v, m);
                assert(mm_pos(apply_spec(v, m), (depth - 1) as nat) == mm_of(v, m, d));
                lemma_mm_pos_characterization(v, d);
            }
            if eval < min_eval {
                min_eval = eval;
            }
            if eval < b {
                b = eval;
            }
            if b <= alpha {
                proof {
                    assert(any_legal(v, m));
                    assert(eval as int <= alpha);
                    assert(mm_of(v, m, d) <= eval as int);
                    assert(mm_pos(v, d) <= mm_of(v, m, d));
                }
                return min_eval;
            }
            i = i + 1;
        }
        proof {
            lemma_mm_pos_characterization(v, d);
            if min_eval < beta {
                let j = choose|j: int| 0 <= j < i && mm_of(v, #[trigger] moves@[j], d)
                    == min_eval as int;
                assert(moves@.contains(moves@[j]));
                assert(any_legal(v, moves@[j]));
                assert(mm_pos(v, d) <= min_eval as int);
            }
            if mm_pos(v, d) != mm_default(-1) {
                let mstar = choose|m: Move|
                    #[trigger] any_legal(v, m) && mm_of(v, m, d) == mm_pos(v, d);
                assert(moves@.contains(mstar));
                let jstar = choose|j: int| 0 <= j < moves@.len() && moves@[j] == mstar;
                assert(mm_of(v, moves@[jstar], d) >= min_eval as int);
                assert(mm_pos(v, d) >= min_eval as int);
            } else {
                assert(mm_pos(v, d) == 99999);
            }
        }
        min_eval
    }
}

/// Relies on rand::RngExt::random_range over the range 0..n: the range is
/// nonempty, so the call does not panic and returns an index below n.
#[verifier::external_body]
fn random_index(n: usize) -> (r: usize)
    requires
        n > 0,
    ensures
        r < n,
{
    let mut rng = rand::rng();
    rng.random_range(0..n)
}

/// The engine's move: every legal move is scored by one ply of play
/// followed by a depth-3 minimax, and one of the moves sharing the best
/// score (highest for white, lowest for black) is chosen uniformly at
/// random. The returned move is legal and its score `mm_pos` three plies
/// deep is extremal among all legal moves; the position comes back exactly
/// as it was. The caller checks for game over first: at least one legal
/// move must exist.
pub fn get_engine_move(game_position: &mut Position) -> (r: Move)
    requires
        playable(old(game_position)@),
        exists|m: Move| any_legal(old(game_position)@, m),
    ensures
        final(game_position)@ == old(game_position)@,
        any_legal(old(game_position)@, r),
        forall|m: Move|
            #[trigger] any_legal(old(game_position)@, m) ==> (if old(game_position)@.turn == 1 {
                mm_pos(apply_spec(old(game_position)@, m), 3) <= mm_pos(
                    apply_spec(old(game_position)@, r),
                    3,
                )
            } else {
                mm_pos(apply_spec(old(game_position)@, m), 3) >= mm_pos(
                    apply_spec(old(game_position)@, r),
                    3,
                )
            }),
{
    let ghost v = old(game_position)@;
    let legal_moves = get_all_legal_moves(game_position);
    proof {
        let m0 = choose|m: Move| any_legal(v, m);
        assert(legal_moves@.contains(m0));
        assert(legal_moves@.len() > 0);
    }
    let mut evals: Vec<i64> = Vec::new();
    let mut i: usize = 0;
    while i < legal_moves.len()
        invariant
            i <= legal_moves@.len(),
            evals@.len() == i,
            game_position@ == v,
            v == old(game_position)@,
            playable(v),
            forall|m: Move| legal_moves@.contains(m) <==> any_legal(v, m),
            forall|j: int|
                0 <= j < i ==> evals@[j] as int == mm_pos(
                    apply_spec(v, #[trigger] legal_moves@[j]),
                    3,
                ),
        decreases legal_moves@.len() - i,
    {
        let m = legal_moves[i];
        proof {
            assert(legal_moves@.contains(m));
            crate::legality::lemma_playable_step(v, m);
        }
        play_move(game_position, m);
        let eval = minimax(game_position, 3, -99999, 99999, game_position.turn == 1);
        undo_move(game_position);
        proof {
            lemma_play_then_undo(v, m);
            lemma_mm_bounds(apply_spec(v, m), 3);
            assert(eval as int == mm_pos(apply_spec(v, m), 3));
        }
        evals.push(eval);
        i = i + 1;
    }

    // the extremum of the scores
    let maximise = game_position.turn == 1;
    let mut best: i64 = evals[0];
    let mut j: usize = 1;
    while j < evals.len()
        invariant
            1 <= j <= evals@.len(),
            evals@.len() == legal_moves@.len(),
            game_position@ == v,
            v == old(game_position)@,
            maximise == (v.turn == 1),
            forall|t: int|
                0 <= t < j ==> (if maximise {
                    evals@[t] <= best
                } else {
                    evals@[t] >= best
                }),
            exists|t: int| 0 <= t < j && evals@[t] == best,
        decreases evals@.len() - j,
    {
        let e = evals[j];
        if maximise {
            if e > best {
                best = e;
            }
        } else {
            if e < best {
                best = e;
            }
        }
        j = j + 1;
    }

    // every move whose score reaches the extremum
    let mut best_moves: Vec<Move> = Vec::new();
    let mut k: usize = 0;
    while k < evals.len()
        invariant
            k <= evals@.len(),
            evals@.len() == legal_moves@.len(),
            game_position@ == v,
            v == old(game_position)@,
            forall|m: Move| legal_moves@.contains(m) <==> any_legal(v, m),
            forall|j2: int|
                0 <= j2 < evals@.len() ==> evals@[j2] as int == mm_pos(
                    apply_spec(v, #[trigger] legal_moves@[j2]),
                    3,
                ),
            (exists|t: int| 0 <= t < k && evals@[t] == best) ==> best_moves@.len() > 0,
            forall|t: int|
                0 <= t < best_moves@.len() ==> any_legal(v, #[trigger] best_moves@[t]) && mm_pos(
                    apply_spec(v, best_moves@[t]),
                    3,
                ) == best as int,
        decreases evals@.len() - k,
    {
        if evals[k] == best {
            let m = legal_moves[k];
            proof {
                assert(legal_moves@.contains(m));
            }
            best_moves.push(m);
        }
        k = k + 1;
    }
    proof {
        assert(best_moves@.len() > 0);
    }
    let ri = random_index(best_moves.len());
    let chosen = best_moves[ri];
    proof {
        assert(any_legal(v, chosen) && mm_pos(apply_spec(v, chosen), 3) == best as int);
        assert forall|m: Move| #[trigger] any_legal(v, m) implies (if v.turn == 1 {
            mm_pos(apply_spec(v, m), 3) <= mm_pos(apply_spec(v, chosen), 3)
        } else {
            mm_pos(apply_spec(v, m), 3) >= mm_pos(apply_spec(v, chosen), 3)
        }) by {
            assert(legal_moves@.contains(m));
            let t = choose|t: int| 0 <= t < legal_moves@.len() && legal_moves@[t] == m;
            assert(evals@[t] as int == mm_pos(apply_spec(v, m), 3));
        }
    }
    chosen
}


// ---------------------------------------------------------------------
// The minimax value of a position, as a spec-level function.
// ---------------------------------------------------------------------

/// Decoded coordinates of move-candidate index `k` (0 <= k < 4096).
pub open spec fn cand_sx(k: int) -> int {
    k / 512
}

pub open spec fn cand_sy(k: int) -> int {
    (k / 64) % 8
}

pub open spec fn cand_ex(k: int) -> int {
    (k / 8) % 8
}

pub open spec fn cand_ey(k: int) -> int {
    k % 8
}

/// The candidate with index `k` is a legal move of the side to move.
pub open spec fn cand_legal(v: PositionV, k: int) -> bool {
    &&& on_board(cand_sx(k), cand_sy(k))
    &&& sign_of(colour_at(v, cand_sx(k), cand_sy(k))) == v.turn
    &&& legal_pred(v, cand_sx(k), cand_sy(k), cand_ex(k), cand_ey(k))
}

pub open spec fn cand_move(v: PositionV, k: int) -> Move {
    gen_move(v, cand_sx(k), cand_sy(k), cand_ex(k), cand_ey(k))
}

/// The score the search assigns when the side to move has no legal move.
pub open spec fn mm_default(turn: int) -> int {
    if turn == 1 {
        -99999
    } else {
        99999
    }
}

/// The minimax value of `v` at depth `d`: the static material count at
/// depth zero, else the best child value over all legal moves (highest
/// when white is to move, lowest when black is), scanning the finite space
/// of move candidates.
pub open spec fn mm_pos(v: PositionV, d: nat) -> int
    decreases d, 4097int,
{
    if d == 0 {
        eval_spec(v.board)
    } else {
        mm_scan(v, d, 4096)
    }
}

/// The best child value among the first `k` move candidates.
pub open spec fn mm_scan(v: PositionV, d: nat, k: int) -> int
    decreases d, k,
{
    if d == 0 || k <= 0 {
        mm_default(v.turn)
    } else {
        let prev = mm_scan(v, d, k - 1);
        if cand_legal(v, k - 1) {
            let c = mm_pos(apply_spec(v, cand_move(v, k - 1)), (d - 1) as nat);
            if v.turn == 1 {
                if c > prev {
                    c
                } else {
                    prev
                }
            } else {
                if c < prev {
                    c
                } else {
                    prev
                }
            }
        } else {
            prev
        }
    }
}

/// The value a legal move leads to, one ply deeper.
pub open spec fn mm_of(v: PositionV, m: Move, d: nat) -> int {
    mm_pos(apply_spec(v, m), (d - 1) as nat)
}

pub proof fn lemma_mm_bounds(v: PositionV, d: nat)
    ensures
        -99999 <= mm_pos(v, d) <= 99999,
    decreases d, 4097int,
{
    if d == 0 {
        lemma_eval_bound(v.board, 64);
    } else {
        lemma_mm_scan_bounds(v, d, 4096);
    }
}

pub proof fn lemma_mm_scan_bounds(v: PositionV, d: nat, k: int)
    ensures
        -99999 <= mm_scan(v, d, k) <= 99999,
    decreases d, k,
{
    if d != 0 && k > 0 {
        lemma_mm_scan_bounds(v, d, k - 1);
        if cand_legal(v, k - 1) {
            lemma_mm_bounds(apply_spec(v, cand_move(v, k - 1)), (d - 1) as nat);
        }
    }
}

/// Every legal candidate below `k` bounds the scan value on the side to
/// move's preferred side, and the scan value is attained by one of them
/// unless it is still the no-move default.
pub proof fn lemma_mm_scan_props(v: PositionV, d: nat, k: int)
    requires
        d >= 1,
        0 <= k <= 4096,
    ensures
        forall|j: int|
            0 <= j < k && #[trigger] cand_legal(v, j) ==> (if v.turn == 1 {
                mm_of(v, cand_move(v, j), d) <= mm_scan(v, d, k)
            } else {
                mm_of(v, cand_move(v, j), d) >= mm_scan(v, d, k)
            }),
        mm_scan(v, d, k) == mm_default(v.turn) || exists|j: int|
            0 <= j < k && #[trigger] cand_legal(v, j) && mm_of(v, cand_move(v, j), d) == mm_scan(
                v,
                d,
                k,
            ),
    decreases k,
{
    if k > 0 {
        lemma_mm_scan_props(v, d, k - 1);
        assert forall|j: int|
            0 <= j < k && #[trigger] cand_legal(v, j) implies (if v.turn == 1 {
            mm_of(v, cand_move(v, j), d) <= mm_scan(v, d, k)
        } else {
            mm_of(v, cand_move(v, j), d) >= mm_scan(v, d, k)
        }) by {
            if j < k - 1 {
            } else {
            }
        }
    }
}

/// The candidate index of a move record: its coordinates, re-encoded.
pub open spec fn cand_index(m: Move) -> int {
    (m.start_x as int) * 512 + (m.start_y as int) * 64 + (m.end_x as int) * 8 + (m.end_y as int)
}

pub proof fn lemma_cand_index_decodes(m: Move)
    requires
        crate::board::move_in_bounds(m),
    ensures
        0 <= cand_index(m) < 4096,
        cand_sx(cand_index(m)) == m.start_x as int,
        cand_sy(cand_index(m)) == m.start_y as int,
        cand_ex(cand_index(m)) == m.end_x as int,
        cand_ey(cand_index(m)) == m.end_y as int,
{
    let sx = m.start_x as int;
    let sy = m.start_y as int;
    let ex = m.end_x as int;
    let ey = m.end_y as int;
    let k = sx * 512 + sy * 64 + ex * 8 + ey;
    assert(k / 512 == sx && (k / 64) % 8 == sy && (k / 8) % 8 == ex && k % 8 == ey) by (nonlinear_arith)
        requires
            0 <= sx < 8 && 0 <= sy < 8 && 0 <= ex < 8 && 0 <= ey < 8 && k == sx * 512 + sy * 64
                + ex * 8 + ey,
    ;
}

/// The minimax value at depth one or more: bounded by every legal move's
/// child value on the proper side, attained by a legal move unless no
/// legal move exists.
pub proof fn lemma_mm_pos_characterization(v: PositionV, d: nat)
    requires
        d >= 1,
    ensures
        forall|m: Move|
            #[trigger] any_legal(v, m) ==> (if v.turn == 1 {
                mm_of(v, m, d) <= mm_pos(v, d)
            } else {
                mm_of(v, m, d) >= mm_pos(v, d)
            }),
        mm_pos(v, d) == mm_default(v.turn) || exists|m: Move|
            #[trigger] any_legal(v, m) && mm_of(v, m, d) == mm_pos(v, d),
{
    lemma_mm_scan_props(v, d, 4096);
    assert forall|m: Move| #[trigger] any_legal(v, m) implies (if v.turn == 1 {
        mm_of(v, m, d) <= mm_pos(v, d)
    } else {
        mm_of(v, m, d) >= mm_pos(v, d)
    }) by {
        let (sx, sy, ex, ey) = choose|sx: int, sy: int, ex: int, ey: int|
            on_board(sx, sy) && sign_of(colour_at(v, sx, sy)) == v.turn && legal_pred(
                v,
                sx,
                sy,
                ex,
                ey,
            ) && m == #[trigger] gen_move(v, sx, sy, ex, ey);
        crate::legality::lemma_pseudo_on_board(v, sx, sy, ex, ey);
        lemma_cand_index_decodes(m);
        let k = cand_index(m);
        assert(cand_sx(k) == sx && cand_sy(k) == sy && cand_ex(k) == ex && cand_ey(k) == ey);
        assert(cand_legal(v, k));
        assert(cand_move(v, k) == m);
    }
    if mm_pos(v, d) != mm_default(v.turn) {
        let j = choose|j: int|
            0 <= j < 4096 && #[trigger] cand_legal(v, j) && mm_of(v, cand_move(v, j), d) == mm_scan(
                v,
                d,
                4096,
            );
        assert(any_legal(v, cand_move(v, j)));
    }
}

} // verus!
