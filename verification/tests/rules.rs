use chess_core::board::{
    black_king_piece, black_pawn_piece, black_queen_piece, black_rook_piece, blank_piece,
    create_move, initialise_board, is_double_pawn_move, is_move_en_passant, remove_legal_highlights,
    start_position, white_king_piece, white_knight_piece, white_pawn_piece, white_queen_piece,
    white_rook_piece, Colours, Highlights, Move, MoveKinds, Piece, PieceNames, Position, Square,
};
use chess_core::apply::{play_move, undo_move};
use chess_core::legality::{get_all_legal_moves, get_piece_legal_moves, is_check};

fn piece_on(pos: &Position, x: usize, y: usize) -> Piece {
    pos.board[x * 8 + y].piece
}

fn same_game_state(a: &Position, b: &Position) -> bool {
    for i in 0..64 {
        if a.board[i].piece != b.board[i].piece {
            return false;
        }
    }
    a.turn == b.turn && a.en_passant == b.en_passant
        && a.castling_rights_history == b.castling_rights_history
        && a.move_history == b.move_history
}

fn play(pos: &mut Position, sx: usize, sy: usize, ex: usize, ey: usize) -> Move {
    let m = create_move(pos, sx, sy, ex, ey);
    play_move(pos, m);
    m
}

fn empty_position(turn: i8) -> Position {
    let blank_square = Square { piece: blank_piece(), highlight: Highlights::NORMAL };
    Position {
        board: [blank_square; 64],
        turn,
        dragged_piece: PieceNames::Blank,
        en_passant: -1,
        castling_rights_history: Vec::new(),
        move_history: Vec::new(),
    }
}

fn put(pos: &mut Position, x: usize, y: usize, p: Piece) {
    let h = pos.board[x * 8 + y].highlight;
    pos.board[x * 8 + y] = Square { piece: p, highlight: h };
}

fn put_highlight(pos: &mut Position, x: usize, y: usize, h: Highlights) {
    let p = pos.board[x * 8 + y].piece;
    pos.board[x * 8 + y] = Square { piece: p, highlight: h };
}

#[test]
fn initial_placement() {
    let pos = start_position();
    assert!(piece_on(&pos, 0, 0) == white_rook_piece());
    assert!(piece_on(&pos, 4, 0) == white_king_piece());
    assert!(piece_on(&pos, 3, 0) == white_queen_piece());
    assert!(piece_on(&pos, 4, 7) == black_king_piece());
    for x in 0..8 {
        assert!(piece_on(&pos, x, 1) == white_pawn_piece());
        assert!(piece_on(&pos, x, 6) == black_pawn_piece());
        for y in 2..6 {
            assert!(piece_on(&pos, x, y) == blank_piece());
        }
    }
    assert_eq!(pos.turn, 1);
    assert_eq!(pos.en_passant, -1);
    assert!(pos.move_history.is_empty());
    assert!(pos.castling_rights_history.is_empty());
}

#[test]
fn initialise_board_leaves_middle_alone() {
    let mut pos = empty_position(1);
    put(&mut pos, 3, 3, white_knight_piece());
    initialise_board(&mut pos);
    assert!(piece_on(&pos, 3, 3) == white_knight_piece());
    assert!(piece_on(&pos, 6, 0) == white_knight_piece());
}

#[test]
fn twenty_legal_moves_from_start() {
    let mut pos = start_position();
    let moves = get_all_legal_moves(&mut pos);
    assert_eq!(moves.len(), 20);
}

#[test]
fn apply_undo_restores_normal_move() {
    let mut pos = start_position();
    let before = pos.clone();
    let m = create_move(&pos, 6, 0, 5, 2);
    assert!(m.kind == MoveKinds::Normal);
    play_move(&mut pos, m);
    assert!(!same_game_state(&pos, &before));
    undo_move(&mut pos);
    assert!(same_game_state(&pos, &before));
}

#[test]
fn apply_undo_restores_capture() {
    let mut pos = start_position();
    play(&mut pos, 4, 1, 4, 3);
    play(&mut pos, 3, 6, 3, 4);
    let before = pos.clone();
    let m = play(&mut pos, 4, 3, 3, 4);
    assert!(m.end_piece == black_pawn_piece());
    assert!(piece_on(&pos, 3, 4) == white_pawn_piece());
    undo_move(&mut pos);
    assert!(same_game_state(&pos, &before));
}

#[test]
fn apply_undo_restores_castle() {
    let mut pos = start_position();
    play(&mut pos, 4, 1, 4, 3); // e4
    play(&mut pos, 4, 6, 4, 4); // e5
    play(&mut pos, 6, 0, 5, 2); // Nf3
    play(&mut pos, 1, 7, 2, 5); // Nc6
    play(&mut pos, 5, 0, 2, 3); // Bc4
    play(&mut pos, 5, 7, 2, 4); // Bc5
    let before = pos.clone();
    let m = create_move(&pos, 4, 0, 6, 0);
    assert!(m.kind == MoveKinds::CastleKingside);
    play_move(&mut pos, m);
    assert!(piece_on(&pos, 6, 0) == white_king_piece());
    assert!(piece_on(&pos, 5, 0) == white_rook_piece());
    assert!(piece_on(&pos, 7, 0) == blank_piece());
    assert!(piece_on(&pos, 4, 0) == blank_piece());
    undo_move(&mut pos);
    assert!(same_game_state(&pos, &before));
}

#[test]
fn apply_undo_restores_en_passant() {
    let mut pos = start_position();
    play(&mut pos, 4, 1, 4, 3); // e4
    play(&mut pos, 0, 6, 0, 5); // a6
    play(&mut pos, 4, 3, 4, 4); // e5
    play(&mut pos, 3, 6, 3, 4); // d5, double push beside e5
    assert_eq!(pos.en_passant, 3);
    let before = pos.clone();
    let m = create_move(&pos, 4, 4, 3, 5);
    assert!(m.kind == MoveKinds::EnPassant);
    play_move(&mut pos, m);
    assert!(piece_on(&pos, 3, 5) == white_pawn_piece());
    assert!(piece_on(&pos, 3, 4) == blank_piece()); // captured pawn gone
    undo_move(&mut pos);
    assert!(same_game_state(&pos, &before));
    assert!(piece_on(&pos, 3, 4) == black_pawn_piece());
}

#[test]
fn apply_undo_restores_promotion() {
    let mut pos = empty_position(1);
    put(&mut pos, 4, 0, white_king_piece());
    put(&mut pos, 4, 7, black_king_piece());
    put(&mut pos, 0, 6, white_pawn_piece());
    let before = pos.clone();
    let m = create_move(&pos, 0, 6, 0, 7);
    assert!(m.kind == MoveKinds::Promotion);
    play_move(&mut pos, m);
    assert!(piece_on(&pos, 0, 7) == white_queen_piece());
    assert!(piece_on(&pos, 0, 6) == blank_piece());
    undo_move(&mut pos);
    assert!(same_game_state(&pos, &before));
}

#[test]
fn undo_on_empty_history_is_noop() {
    let mut pos = start_position();
    let before = pos.clone();
    undo_move(&mut pos);
    assert!(same_game_state(&pos, &before));
}

#[test]
fn no_en_passant_after_single_push() {
    let mut pos = start_position();
    play(&mut pos, 4, 1, 4, 3); // e4: a double push, but no black pawn beside it
    let moves = get_all_legal_moves(&mut pos);
    assert!(moves.iter().all(|m| m.kind != MoveKinds::EnPassant));
}

#[test]
fn en_passant_window_is_one_ply() {
    let mut pos = start_position();
    play(&mut pos, 4, 1, 4, 3); // e4
    play(&mut pos, 0, 6, 0, 5); // a6
    play(&mut pos, 4, 3, 4, 4); // e5
    play(&mut pos, 3, 6, 3, 4); // d5
    let now = get_all_legal_moves(&mut pos);
    let ep_now: Vec<&Move> = now.iter().filter(|m| m.kind == MoveKinds::EnPassant).collect();
    assert_eq!(ep_now.len(), 1);
    assert_eq!((ep_now[0].start_x, ep_now[0].start_y), (4, 4));
    assert_eq!((ep_now[0].end_x, ep_now[0].end_y), (3, 5));
    // interpose another pair of moves: the capture option is gone
    play(&mut pos, 6, 0, 5, 2); // Nf3
    play(&mut pos, 0, 5, 0, 4); // a5
    let later = get_all_legal_moves(&mut pos);
    assert!(later.iter().all(|m| m.kind != MoveKinds::EnPassant));
}

#[test]
fn castling_needs_empty_unattacked_path() {
    let mut pos = start_position();
    // the path f1, g1 is still occupied: no castle available
    let moves = get_all_legal_moves(&mut pos);
    assert!(moves.iter().all(|m| m.kind != MoveKinds::CastleKingside));

    play(&mut pos, 4, 1, 4, 3); // e4
    play(&mut pos, 4, 6, 4, 4); // e5
    play(&mut pos, 6, 0, 5, 2); // Nf3
    play(&mut pos, 1, 7, 2, 5); // Nc6
    play(&mut pos, 5, 0, 2, 3); // Bc4
    play(&mut pos, 5, 7, 2, 4); // Bc5
    // f1 and g1 are empty, king and rook untouched: the castle is legal
    let moves = get_all_legal_moves(&mut pos);
    assert!(moves.iter().any(|m| m.kind == MoveKinds::CastleKingside));
}

#[test]
fn castling_blocked_by_attacked_crossing_square() {
    // white king e1 and rook h1 ready to castle, but a black rook on f8
    // attacks f1, the square the king crosses
    let mut pos = empty_position(1);
    put(&mut pos, 4, 0, white_king_piece());
    put(&mut pos, 7, 0, white_rook_piece());
    put(&mut pos, 5, 7, black_rook_piece());
    put(&mut pos, 0, 7, black_king_piece());
    let moves = get_all_legal_moves(&mut pos);
    assert!(moves.iter().all(|m| m.kind != MoveKinds::CastleKingside));
    // without the attacking rook the same castle is legal
    let mut pos2 = empty_position(1);
    put(&mut pos2, 4, 0, white_king_piece());
    put(&mut pos2, 7, 0, white_rook_piece());
    put(&mut pos2, 0, 7, black_king_piece());
    let moves2 = get_all_legal_moves(&mut pos2);
    assert!(moves2.iter().any(|m| m.kind == MoveKinds::CastleKingside));
}

#[test]
fn moving_a1_rook_clears_only_queenside_right() {
    let mut pos = start_position();
    play(&mut pos, 0, 1, 0, 3); // a4
    play(&mut pos, 4, 6, 4, 4); // e5
    play(&mut pos, 0, 0, 0, 2); // Ra3
    let rights = *pos.castling_rights_history.last().unwrap();
    assert!(!rights.white_queenside);
    assert!(rights.white_kingside);
    assert!(rights.black_kingside && rights.black_queenside);
}

#[test]
fn pinned_rook_cannot_leave_the_file() {
    // white king e1, white rook e2, black rook e8: the white rook is
    // pinned and may only move along the e-file
    let mut pos = empty_position(1);
    put(&mut pos, 4, 0, white_king_piece());
    put(&mut pos, 4, 1, white_rook_piece());
    put(&mut pos, 4, 7, black_rook_piece());
    put(&mut pos, 7, 7, black_king_piece());
    let moves = get_piece_legal_moves(&mut pos, 4, 1);
    assert!(moves.iter().all(|m| m.end_x == 4));
    // and a sideways rook move really was pseudo-legal before filtering
    assert!(moves.iter().all(|m| !(m.end_x == 0 && m.end_y == 1)));
}

#[test]
fn scholars_mate_is_checkmate() {
    let mut pos = start_position();
    play(&mut pos, 4, 1, 4, 3); // e4
    play(&mut pos, 4, 6, 4, 4); // e5
    play(&mut pos, 5, 0, 2, 3); // Bc4
    play(&mut pos, 1, 7, 2, 5); // Nc6
    play(&mut pos, 3, 0, 7, 4); // Qh5
    play(&mut pos, 6, 7, 5, 5); // Nf6
    play(&mut pos, 7, 4, 5, 6); // Qxf7, mate
    let moves = get_all_legal_moves(&mut pos);
    assert_eq!(moves.len(), 0);
    // the side to move (black) is in check: checkmate, not stalemate
    pos.turn = -pos.turn;
    let check = is_check(&pos);
    pos.turn = -pos.turn;
    assert!(check);
}

#[test]
fn stalemate_is_not_check() {
    // white king a1 alone against black king c2 and black queen b3, white
    // to move: no legal move, but not in check either
    let mut pos = empty_position(1);
    put(&mut pos, 0, 0, white_king_piece());
    put(&mut pos, 2, 1, black_king_piece());
    put(&mut pos, 1, 2, black_queen_piece());
    let moves = get_all_legal_moves(&mut pos);
    assert_eq!(moves.len(), 0);
    pos.turn = -pos.turn;
    let check = is_check(&pos);
    pos.turn = -pos.turn;
    assert!(!check);
}

#[test]
fn move_predicates_match_geometry() {
    let wp = white_pawn_piece();
    let bp = black_pawn_piece();
    let double = Move {
        start_x: 4,
        start_y: 1,
        end_x: 4,
        end_y: 3,
        start_piece: wp,
        end_piece: blank_piece(),
        kind: MoveKinds::Normal,
    };
    assert!(is_double_pawn_move(double));
    let single = Move { end_y: 2, ..double };
    assert!(!is_double_pawn_move(single));
    let black_double = Move {
        start_y: 6,
        end_y: 4,
        start_piece: bp,
        ..double
    };
    assert!(is_double_pawn_move(black_double));
    let ep = Move {
        start_x: 4,
        start_y: 4,
        end_x: 3,
        end_y: 5,
        start_piece: wp,
        end_piece: blank_piece(),
        kind: MoveKinds::EnPassant,
    };
    assert!(is_move_en_passant(ep));
    let not_ep = Move { end_piece: bp, ..ep };
    assert!(!is_move_en_passant(not_ep));
}

#[test]
fn create_move_snapshots_both_squares() {
    let pos = start_position();
    let m = create_move(&pos, 1, 0, 2, 2);
    assert!(m.start_piece == white_knight_piece());
    assert!(m.end_piece == blank_piece());
    assert!(m.kind == MoveKinds::Normal);
    assert_eq!((m.start_x, m.start_y, m.end_x, m.end_y), (1, 0, 2, 2));
}

#[test]
fn legal_highlights_set_and_removed() {
    let mut pos = start_position();
    chess_core::legality::highlight_piece_legal_moves(&mut pos, 6, 0);
    // the knight on g1 can reach f3 and h3
    assert!(pos.board[5 * 8 + 2].highlight == Highlights::LEGAL);
    assert!(pos.board[7 * 8 + 2].highlight == Highlights::LEGAL);
    remove_legal_highlights(&mut pos);
    for i in 0..64 {
        assert!(pos.board[i].highlight != Highlights::LEGAL);
    }
}

#[test]
fn colours_have_signs() {
    assert_eq!(chess_core::board::colour_sign(Colours::WHITE), 1);
    assert_eq!(chess_core::board::colour_sign(Colours::EMPTY), 0);
    assert_eq!(chess_core::board::colour_sign(Colours::BLACK), -1);
}

#[test]
fn apply_undo_restores_queenside_castle() {
    let mut pos = start_position();
    play(&mut pos, 3, 1, 3, 3); // d4
    play(&mut pos, 3, 6, 3, 4); // d5
    play(&mut pos, 2, 0, 5, 3); // Bf4
    play(&mut pos, 2, 7, 5, 4); // Bf5
    play(&mut pos, 1, 0, 2, 2); // Nc3
    play(&mut pos, 1, 7, 2, 5); // Nc6
    play(&mut pos, 3, 0, 3, 2); // Qd3
    play(&mut pos, 3, 7, 3, 5); // Qd6
    let before = pos.clone();
    let m = create_move(&pos, 4, 0, 2, 0);
    assert!(m.kind == MoveKinds::CastleQueenside);
    play_move(&mut pos, m);
    assert!(piece_on(&pos, 2, 0) == white_king_piece());
    assert!(piece_on(&pos, 3, 0) == white_rook_piece());
    assert!(piece_on(&pos, 0, 0) == blank_piece());
    undo_move(&mut pos);
    assert!(same_game_state(&pos, &before));
}

#[test]
fn capture_promotion_auto_queens() {
    // a white pawn on b7 takes the rook on a8 and becomes a queen
    let mut pos = empty_position(1);
    put(&mut pos, 4, 0, white_king_piece());
    put(&mut pos, 7, 7, black_king_piece());
    put(&mut pos, 1, 6, white_pawn_piece());
    put(&mut pos, 0, 7, black_rook_piece());
    let before = pos.clone();
    let m = create_move(&pos, 1, 6, 0, 7);
    assert!(m.kind == MoveKinds::Promotion);
    assert!(m.end_piece == black_rook_piece());
    play_move(&mut pos, m);
    assert!(piece_on(&pos, 0, 7) == white_queen_piece());
    undo_move(&mut pos);
    assert!(same_game_state(&pos, &before));
    assert!(piece_on(&pos, 0, 7) == black_rook_piece());
}

#[test]
fn king_position_finds_the_moved_side_king() {
    let mut pos = start_position();
    // after 1.e4 black is to move: the probe reports white's king square
    play(&mut pos, 4, 1, 4, 3);
    let (kx, ky) = chess_core::legality::get_king_position(&pos);
    assert_eq!((kx, ky), (4, 0));
}

#[test]
fn queenside_castle_needs_empty_b_file_square() {
    // king and queenside rook untouched, c1 and d1 cleared, but the
    // knight still stands on b1: the queenside castle must not appear
    let mut pos = start_position();
    play(&mut pos, 3, 1, 3, 3); // d4
    play(&mut pos, 3, 6, 3, 4); // d5
    play(&mut pos, 2, 0, 5, 3); // Bf4
    play(&mut pos, 2, 7, 5, 4); // Bf5
    play(&mut pos, 3, 0, 3, 2); // Qd3
    play(&mut pos, 3, 7, 3, 5); // Qd6
    let moves = get_all_legal_moves(&mut pos);
    assert!(moves.iter().all(|m| m.kind != MoveKinds::CastleQueenside));
    // once the knight leaves b1 the castle appears
    play(&mut pos, 1, 0, 2, 2); // Nc3
    play(&mut pos, 1, 7, 2, 5); // Nc6
    let moves = get_all_legal_moves(&mut pos);
    assert!(moves.iter().any(|m| m.kind == MoveKinds::CastleQueenside));
}

#[test]
fn legal_move_lists_hold_no_duplicates() {
    let mut pos = start_position();
    let moves = get_all_legal_moves(&mut pos);
    for i in 0..moves.len() {
        for j in 0..i {
            assert!(moves[i] != moves[j]);
        }
    }
}

#[test]
fn highlights_leave_other_squares_alone() {
    let mut pos = start_position();
    // tag an unrelated square and the previous-move markers' home
    put_highlight(&mut pos, 0, 4, Highlights::CHECK);
    chess_core::legality::highlight_piece_legal_moves(&mut pos, 6, 0);
    // the knight's two destinations are tagged, the rest is untouched
    assert!(pos.board[5 * 8 + 2].highlight == Highlights::LEGAL);
    assert!(pos.board[7 * 8 + 2].highlight == Highlights::LEGAL);
    assert!(pos.board[0 * 8 + 4].highlight == Highlights::CHECK);
    for i in 0..64 {
        if i != 5 * 8 + 2 && i != 7 * 8 + 2 && i != 0 * 8 + 4 {
            assert!(pos.board[i].highlight == Highlights::NORMAL);
        }
    }
}
