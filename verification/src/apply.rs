//! The apply/undo engine: playing a move mutates the board, the side to
//! move, the en-passant file and the two history stacks; undoing restores
//! all of them exactly. Both are pinned to spec-level transformers
//! (`apply_spec`, `undo_spec`), and the round-trip law is proved over those.

use vstd::prelude::*;

use crate::board::{
    all_castling_rights, at, black_pawn_piece, black_queen_piece, black_rook_piece, blank_piece,
    ep_of_history, ep_ok, history_in_bounds, is_castle_pattern, is_double_pawn_move,
    is_double_spec, is_ep_pattern, ix, kind_of, move_in_bounds, piece_at, set_highlight,
    set_piece, sign_of, spec_all_castling_rights, spec_black_pawn_piece, spec_black_queen_piece,
    spec_black_rook_piece, spec_blank_piece, spec_white_pawn_piece, spec_white_queen_piece,
    spec_white_rook_piece, turn_ok, white_pawn_piece, white_queen_piece, white_rook_piece,
    CastlingRights, Colours, Highlights, Move, MoveKinds, Piece, PieceNames, Position, PositionV,
    null_move, spec_null_move,
};

verus! {

pub open spec fn queen_of(c: Colours) -> Piece {
    if c == Colours::WHITE {
        spec_white_queen_piece()
    } else {
        spec_black_queen_piece()
    }
}

pub open spec fn rook_of(c: Colours) -> Piece {
    if c == Colours::WHITE {
        spec_white_rook_piece()
    } else {
        spec_black_rook_piece()
    }
}

/// The pawn an en-passant undo puts back: the one the mover captured.
pub open spec fn ep_restored_pawn(mover: Colours) -> Piece {
    if mover == Colours::WHITE {
        spec_black_pawn_piece()
    } else {
        spec_white_pawn_piece()
    }
}

/// The castling-rights snapshot in force: the top of the stack, or all four
/// rights while the stack is still empty.
pub open spec fn rights_top(v: PositionV) -> CastlingRights {
    if v.rights.len() == 0 {
        spec_all_castling_rights()
    } else {
        v.rights.last()
    }
}

/// The snapshot pushed when `m` is played: moving a rook off its original
/// corner clears that corner's right, moving a king clears both rights of
/// its colour.
pub open spec fn next_rights(v: PositionV, m: Move) -> CastlingRights {
    let r = rights_top(v);
    let n = m.start_piece.piece_name;
    let sx = m.start_x as int;
    let sy = m.start_y as int;
    CastlingRights {
        white_kingside: r.white_kingside && !(n == PieceNames::WhiteRook && sx == 7 && sy == 0)
            && n != PieceNames::WhiteKing,
        black_kingside: r.black_kingside && !(n == PieceNames::BlackRook && sx == 7 && sy == 7)
            && n != PieceNames::BlackKing,
        white_queenside: r.white_queenside && !(n == PieceNames::WhiteRook && sx == 0 && sy == 0)
            && n != PieceNames::WhiteKing,
        black_queenside: r.black_queenside && !(n == PieceNames::BlackRook && sx == 0 && sy == 7)
            && n != PieceNames::BlackKing,
    }
}

/// What playing `m` does to the 64 pieces, by move kind.
pub open spec fn apply_board(b: Seq<Piece>, m: Move) -> Seq<Piece> {
    let sx = m.start_x as int;
    let sy = m.start_y as int;
    let ex = m.end_x as int;
    let ey = m.end_y as int;
    let sp = m.start_piece;
    match m.kind {
        MoveKinds::Promotion => b.update(ix(ex, ey), queen_of(sp.colour)).update(
            ix(sx, sy),
            spec_blank_piece(),
        ),
        MoveKinds::CastleKingside => b.update(ix(ex, ey), sp).update(
            ix(sx, sy),
            spec_blank_piece(),
        ).update(ix(7, ey), spec_blank_piece()).update(ix(5, ey), rook_of(sp.colour)),
        MoveKinds::CastleQueenside => b.update(ix(ex, ey), sp).update(
            ix(sx, sy),
            spec_blank_piece(),
        ).update(ix(0, ey), spec_blank_piece()).update(ix(3, ey), rook_of(sp.colour)),
        MoveKinds::EnPassant => b.update(ix(ex, ey), sp).update(ix(sx, sy), spec_blank_piece()
        ).update(ix(ex, sy), spec_blank_piece()),
        MoveKinds::Normal => b.update(ix(ex, ey), sp).update(ix(sx, sy), spec_blank_piece()),
    }
}

/// The position after playing `m`: the board transformed, one snapshot and
/// one move pushed, the en-passant file opened only by a double pawn push,
/// and the side to move flipped.
pub open spec fn apply_spec(v: PositionV, m: Move) -> PositionV {
    PositionV {
        board: apply_board(v.board, m),
        turn: -v.turn,
        en_passant: if is_double_spec(m) {
            m.start_x as int
        } else {
            -1
        },
        rights: v.rights.push(next_rights(v, m)),
        history: v.history.push(m),
        dragged: v.dragged,
    }
}

/// What undoing `m` does to the 64 pieces: both squares get their recorded
/// occupants back; a castle also puts the rook back in its corner; an
/// en-passant capture also puts the captured pawn back.
pub open spec fn undo_board(b: Seq<Piece>, m: Move) -> Seq<Piece> {
    let sx = m.start_x as int;
    let sy = m.start_y as int;
    let ex = m.end_x as int;
    let ey = m.end_y as int;
    let b1 = b.update(ix(sx, sy), m.start_piece).update(ix(ex, ey), m.end_piece);
    match m.kind {
        MoveKinds::CastleKingside => b1.update(ix(5, sy), spec_blank_piece()).update(
            ix(7, sy),
            rook_of(m.start_piece.colour),
        ),
        MoveKinds::CastleQueenside => b1.update(ix(3, sy), spec_blank_piece()).update(
            ix(0, sy),
            rook_of(m.start_piece.colour),
        ),
        MoveKinds::EnPassant => b1.update(ix(ex, sy), ep_restored_pawn(m.start_piece.colour)),
        _ => b1,
    }
}

/// The position after undoing the last played move; the identity on an
/// empty history. The en-passant file is recomputed from the move that
/// becomes the top of the stack (or, for an undone en-passant capture,
/// from the capture itself, whose target file is the file of the double
/// push that preceded it).
pub open spec fn undo_spec(v: PositionV) -> PositionV {
    if v.history.len() == 0 {
        v
    } else {
        let m = v.history.last();
        let h2 = v.history.drop_last();
        PositionV {
            board: undo_board(v.board, m),
            turn: -v.turn,
            en_passant: if m.kind == MoveKinds::EnPassant {
                m.end_x as int
            } else {
                ep_of_history(h2)
            },
            rights: if v.rights.len() == 0 {
                v.rights
            } else {
                v.rights.drop_last()
            },
            history: h2,
            dragged: v.dragged,
        }
    }
}

/// The conditions under which a move record faithfully describes a
/// transition of `v`: in bounds, snapshots match the board, the mover's
/// piece belongs to the side to move, the kind tag agrees with the
/// geometry, a double push stays on its file, a castle really has its rook
/// in the corner and the rook's target square empty, and an en-passant
/// capture matches the en-passant file with the captured pawn in place.
/// Every move the generator emits from a well-formed position satisfies
/// this.
pub open spec fn move_consistent(v: PositionV, m: Move) -> bool {
    let sx = m.start_x as int;
    let sy = m.start_y as int;
    let ex = m.end_x as int;
    let ey = m.end_y as int;
    &&& move_in_bounds(m)
    &&& !(sx == ex && sy == ey)
    &&& m.start_piece == at(v, sx, sy)
    &&& m.end_piece == at(v, ex, ey)
    &&& sign_of(m.start_piece.colour) == v.turn
    &&& m.kind == kind_of(m.start_piece, m.end_piece, sx, sy, ex, ey)
    &&& (is_double_spec(m) ==> sx == ex)
    &&& (m.kind == MoveKinds::CastleKingside ==> at(v, 7, sy) == rook_of(m.start_piece.colour)
        && at(v, 5, sy) == spec_blank_piece())
    &&& (m.kind == MoveKinds::CastleQueenside ==> at(v, 0, sy) == rook_of(m.start_piece.colour)
        && at(v, 3, sy) == spec_blank_piece())
    &&& (m.kind == MoveKinds::EnPassant ==> v.en_passant == ex && at(v, ex, sy)
        == ep_restored_pawn(m.start_piece.colour))
}

/// Reversibility: playing a consistent move and undoing it restores the
/// game state exactly — board, side to move, en-passant file, castling
/// rights and history. The search relies on this for backtracking without
/// copying.
pub proof fn lemma_play_then_undo(v: PositionV, m: Move)
    requires
        v.board.len() == 64,
        turn_ok(v),
        ep_ok(v),
        move_consistent(v, m),
    ensures
        undo_spec(apply_spec(v, m)) == v,
{
    let v2 = apply_spec(v, m);
    assert(v2.history.len() > 0);
    assert(v2.history.last() == m);
    assert(v2.history.drop_last() =~= v.history);
    assert(v2.rights.drop_last() =~= v.rights);
    let sx = m.start_x as int;
    let sy = m.start_y as int;
    let ex = m.end_x as int;
    let ey = m.end_y as int;
    match m.kind {
        MoveKinds::Promotion => {
            assert(undo_board(v2.board, m) =~= v.board);
        },
        MoveKinds::CastleKingside => {
            assert(is_castle_pattern(m.start_piece, sx, sy, ex, ey, true));
            assert(undo_board(v2.board, m) =~= v.board);
        },
        MoveKinds::CastleQueenside => {
            assert(is_castle_pattern(m.start_piece, sx, sy, ex, ey, false));
            assert(undo_board(v2.board, m) =~= v.board);
        },
        MoveKinds::EnPassant => {
            assert(is_ep_pattern(m.start_piece, m.end_piece, sx, sy, ex, ey));
            assert(undo_board(v2.board, m) =~= v.board);
        },
        MoveKinds::Normal => {
            assert(undo_board(v2.board, m) =~= v.board);
        },
    }
    assert(undo_spec(v2) =~= v);
}


/// The effect of `move_piece` alone: the board transform, the en-passant
/// update and the pushed rights snapshot, with the side to move and the
/// move history untouched.
pub open spec fn move_piece_spec(v: PositionV, m: Move) -> PositionV {
    PositionV {
        board: apply_board(v.board, m),
        en_passant: if is_double_spec(m) {
            m.start_x as int
        } else {
            -1
        },
        rights: v.rights.push(next_rights(v, m)),
        ..v
    }
}

/// Executes the board mutation of `m`, updates the castling rights stack
/// and the en-passant file, and moves the previous-move highlight. Assumes
/// a pseudo-legal move; no legality check happens here.
fn move_piece(game_position: &mut Position, m: Move)
    requires
        move_in_bounds(m),
        m.start_piece == at(old(game_position)@, m.start_x as int, m.start_y as int),
        history_in_bounds(old(game_position)@),
    ensures
        final(game_position)@ == move_piece_spec(old(game_position)@, m),
{
    // move the previous-move highlight pair onto this move's squares
    let l = game_position.move_history.len();
    if l != 0 {
        let prev_move = game_position.move_history[l - 1];
        if prev_move != null_move() {
            set_highlight(game_position, prev_move.start_x, prev_move.start_y, Highlights::NORMAL);
            set_highlight(game_position, prev_move.end_x, prev_move.end_y, Highlights::NORMAL);
        }
    }
    set_highlight(game_position, m.start_x, m.start_y, Highlights::PREVIOUS);
    set_highlight(game_position, m.end_x, m.end_y, Highlights::PREVIOUS);

    let start = piece_at(game_position, m.start_x, m.start_y);

    // castling rights: moving a rook off its corner or moving a king
    // clears rights; the updated snapshot is pushed for this ply
    let lr = game_position.castling_rights_history.len();
    let mut new_castling_rights: CastlingRights;
    if lr == 0 {
        new_castling_rights = all_castling_rights();
    } else {
        new_castling_rights = game_position.castling_rights_history[lr - 1];
    }
    if start.piece_name == PieceNames::WhiteRook {
        if m.start_x == 0 && m.start_y == 0 {
            new_castling_rights.white_queenside = false;
        }
        if m.start_x == 7 && m.start_y == 0 {
            new_castling_rights.white_kingside = false;
        }
    }
    if start.piece_name == PieceNames::BlackRook {
        if m.start_x == 0 && m.start_y == 7 {
            new_castling_rights.black_queenside = false;
        }
        if m.start_x == 7 && m.start_y == 7 {
            new_castling_rights.black_kingside = false;
        }
    }
    if start.piece_name == PieceNames::WhiteKing {
        new_castling_rights.white_queenside = false;
        new_castling_rights.white_kingside = false;
    }
    if start.piece_name == PieceNames::BlackKing {
        new_castling_rights.black_queenside = false;
        new_castling_rights.black_kingside = false;
    }
    game_position.castling_rights_history.push(new_castling_rights);
    proof {
        assert(game_position@.rights =~= old(game_position)@.rights.push(
            next_rights(old(game_position)@, m),
        ));
    }

    // a double pawn push opens its file for en passant, anything else
    // closes the file
    if is_double_pawn_move(m) {
        game_position.en_passant = m.start_x as i32;
    } else {
        game_position.en_passant = -1;
    }

    match m.kind {
        MoveKinds::Promotion => {
            // auto-queen: the pawn reaches the final rank for its colour
            let q = if start.colour == Colours::WHITE {
                white_queen_piece()
            } else {
                black_queen_piece()
            };
            set_piece(game_position, m.end_x, m.end_y, q);
            set_piece(game_position, m.start_x, m.start_y, blank_piece());
        },
        MoveKinds::CastleKingside => {
            let r = if start.colour == Colours::WHITE {
                white_rook_piece()
            } else {
                black_rook_piece()
            };
            set_piece(game_position, m.end_x, m.end_y, start);
            set_piece(game_position, m.start_x, m.start_y, blank_piece());
            set_piece(game_position, 7, m.end_y, blank_piece());
            set_piece(game_position, 5, m.end_y, r);
        },
        MoveKinds::CastleQueenside => {
            let r = if start.colour == Colours::WHITE {
                white_rook_piece()
            } else {
                black_rook_piece()
            };
            set_piece(game_position, m.end_x, m.end_y, start);
            set_piece(game_position, m.start_x, m.start_y, blank_piece());
            set_piece(game_position, 0, m.end_y, blank_piece());
            set_piece(game_position, 3, m.end_y, r);
        },
        MoveKinds::EnPassant => {
            set_piece(game_position, m.end_x, m.end_y, start);
            set_piece(game_position, m.start_x, m.start_y, blank_piece());
            // the captured pawn stands beside the start square, on the
            // destination file
            set_piece(game_position, m.end_x, m.start_y, blank_piece());
        },
        MoveKinds::Normal => {
            set_piece(game_position, m.end_x, m.end_y, start);
            set_piece(game_position, m.start_x, m.start_y, blank_piece());
        },
    }
    proof {
        assert(game_position@ =~= move_piece_spec(old(game_position)@, m));
    }
}

/// Plays `m`: mutates the board, pushes onto both history stacks, updates
/// the en-passant file and flips the side to move. The caller hands in a
/// move built by `create_move` from the current position (every move the
/// generator returns qualifies); no legality check happens here.
pub fn play_move(game_position: &mut Position, m: Move)
    requires
        move_in_bounds(m),
        m.start_piece == at(old(game_position)@, m.start_x as int, m.start_y as int),
        turn_ok(old(game_position)@),
        history_in_bounds(old(game_position)@),
    ensures
        final(game_position)@ == apply_spec(old(game_position)@, m),
{
    move_piece(game_position, m);
    game_position.move_history.push(m);
    game_position.turn = -game_position.turn;
    proof {
        assert(game_position@ =~= apply_spec(old(game_position)@, m));
    }
}

/// Undoes the last played move: pops both history stacks, restores the two
/// squares to their recorded occupants (with the bespoke reversal for a
/// castle and an en-passant capture), recomputes the en-passant file from
/// the move that becomes the top of the stack, and flips the side to move
/// back. On an empty history this is a no-op.
pub fn undo_move(game_position: &mut Position)
    requires
        turn_ok(old(game_position)@),
        history_in_bounds(old(game_position)@),
    ensures
        final(game_position)@ == undo_spec(old(game_position)@),
{
    let l = game_position.move_history.len();
    if l == 0 {
        return ;
    }
    game_position.turn = -game_position.turn;
    let _ = game_position.castling_rights_history.pop();
    let m = game_position.move_history.pop().unwrap();
    proof {
        assert(m == old(game_position)@.history.last());
        assert(move_in_bounds(m));
        assert(game_position@.history =~= old(game_position)@.history.drop_last());
    }

    set_highlight(game_position, m.start_x, m.start_y, Highlights::NORMAL);
    set_highlight(game_position, m.end_x, m.end_y, Highlights::NORMAL);

    set_piece(game_position, m.start_x, m.start_y, m.start_piece);
    set_piece(game_position, m.end_x, m.end_y, m.end_piece);

    match m.kind {
        MoveKinds::CastleKingside => {
            let r = if m.start_piece.colour == Colours::WHITE {
                white_rook_piece()
            } else {
                black_rook_piece()
            };
            set_piece(game_position, 5, m.start_y, blank_piece());
            set_piece(game_position, 7, m.start_y, r);
        },
        MoveKinds::CastleQueenside => {
            let r = if m.start_piece.colour == Colours::WHITE {
                white_rook_piece()
            } else {
                black_rook_piece()
            };
            set_piece(game_position, 3, m.start_y, blank_piece());
            set_piece(game_position, 0, m.start_y, r);
        },
        MoveKinds::EnPassant => {
            // put the captured pawn back beside the start square
            let p = if m.start_piece.colour == Colours::WHITE {
                black_pawn_piece()
            } else {
                white_pawn_piece()
            };
            set_piece(game_position, m.end_x, m.start_y, p);
        },
        _ => {},
    }

    if m.kind == MoveKinds::EnPassant {
        // the capture itself pins down the double-push file it answered
        game_position.en_passant = m.end_x as i32;
    } else {
        let l2 = game_position.move_history.len();
        if l2 >= 1 {
            let prev_move = game_position.move_history[l2 - 1];
            if is_double_pawn_move(prev_move) {
                game_position.en_passant = prev_move.start_x as i32;
            } else {
                game_position.en_passant = -1;
            }
        } else {
            game_position.en_passant = -1;
        }
    }

    // the move before the undone one becomes the previous move again
    let l2 = game_position.move_history.len();
    if l2 >= 1 {
        let prev_move = game_position.move_history[l2 - 1];
        set_highlight(game_position, prev_move.start_x, prev_move.start_y, Highlights::PREVIOUS);
        set_highlight(game_position, prev_move.end_x, prev_move.end_y, Highlights::PREVIOUS);
    }
    proof {
        assert(game_position@ =~= undo_spec(old(game_position)@));
    }
}

} // verus!
