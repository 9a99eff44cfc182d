//! Data model of the chess engine: pieces, squares, moves, and the full
//! game position, together with the mathematical view (`PositionV`) that
//! every contract in this crate is stated over.

use vstd::prelude::*;

verus! {

#[derive(Clone, Copy, PartialEq, Eq, Debug, Structural)]
pub enum PieceNames {
    WhiteKing,
    WhiteQueen,
    WhiteBishop,
    WhiteKnight,
    WhiteRook,
    WhitePawn,
    BlackKing,
    BlackQueen,
    BlackBishop,
    BlackKnight,
    BlackRook,
    BlackPawn,
    Blank,
}

#[derive(Clone, Copy, PartialEq, Eq, Debug, Structural)]
pub enum PieceTypes {
    ROOK,
    KNIGHT,
    BISHOP,
    QUEEN,
    KING,
    PAWN,
    BLANK,
}

#[derive(Clone, Copy, PartialEq, Eq, Debug, Structural)]
pub enum Highlights {
    NORMAL,
    PREVIOUS,
    LEGAL,
    CHECK,
}

#[derive(Clone, Copy, PartialEq, Eq, Debug, Structural)]
pub enum Colours {
    WHITE,
    EMPTY,
    BLACK,
}

/// What a move does to the board, decided once when the move is built.
#[derive(Clone, Copy, PartialEq, Eq, Debug, Structural)]
pub enum MoveKinds {
    Normal,
    CastleKingside,
    CastleQueenside,
    EnPassant,
    Promotion,
}

#[derive(Clone, Copy, PartialEq, Eq, Debug, Structural)]
pub struct Piece {
    pub piece_name: PieceNames,
    pub piece_type: PieceTypes,
    pub colour: Colours,
}

#[derive(Clone, Copy, PartialEq, Eq, Debug, Structural)]
pub struct Square {
    pub piece: Piece,
    pub highlight: Highlights,
}

/// One snapshot of the four castling rights; one snapshot is pushed per ply.
#[derive(Clone, Copy, PartialEq, Eq, Debug, Structural)]
pub struct CastlingRights {
    pub white_kingside: bool,
    pub black_kingside: bool,
    pub white_queenside: bool,
    pub black_queenside: bool,
}

/// A move record: coordinates, the two pieces that stood on the squares
/// before the move, and the kind tag. The record is all that apply and
/// undo need.
#[derive(Clone, Copy, PartialEq, Eq, Debug, Structural)]
pub struct Move {
    pub start_x: usize,
    pub start_y: usize,
    pub end_x: usize,
    pub end_y: usize,
    pub start_piece: Piece,
    pub end_piece: Piece,
    pub kind: MoveKinds,
}

/// The full game state. The board is a flat array of 64 squares in
/// file-major order: the square with file `x` and rank `y` is entry
/// `x * 8 + y`.
#[derive(Clone, PartialEq, Eq, Debug)]
pub struct Position {
    pub board: [Square; 64],
    pub turn: i8,
    pub dragged_piece: PieceNames,
    pub en_passant: i32,
    pub castling_rights_history: Vec<CastlingRights>,
    pub move_history: Vec<Move>,
}

pub open spec fn spec_white_king_piece() -> Piece {
    Piece {
        piece_name: PieceNames::WhiteKing,
        piece_type: PieceTypes::KING,
        colour: Colours::WHITE,
    }
}

#[verifier::when_used_as_spec(spec_white_king_piece)]
pub fn white_king_piece() -> (p: Piece)
    ensures
        p == spec_white_king_piece(),
{
    Piece {
        piece_name: PieceNames::WhiteKing,
        piece_type: PieceTypes::KING,
        colour: Colours::WHITE,
    }
}

pub open spec fn spec_white_queen_piece() -> Piece {
    Piece {
        piece_name: PieceNames::WhiteQueen,
        piece_type: PieceTypes::QUEEN,
        colour: Colours::WHITE,
    }
}

#[verifier::when_used_as_spec(spec_white_queen_piece)]
pub fn white_queen_piece() -> (p: Piece)
    ensures
        p == spec_white_queen_piece(),
{
    Piece {
        piece_name: PieceNames::WhiteQueen,
        piece_type: PieceTypes::QUEEN,
        colour: Colours::WHITE,
    }
}

pub open spec fn spec_white_rook_piece() -> Piece {
    Piece {
        piece_name: PieceNames::WhiteRook,
        piece_type: PieceTypes::ROOK,
        colour: Colours::WHITE,
    }
}

#[verifier::when_used_as_spec(spec_white_rook_piece)]
pub fn white_rook_piece() -> (p: Piece)
    ensures
        p == spec_white_rook_piece(),
{
    Piece {
        piece_name: PieceNames::WhiteRook,
        piece_type: PieceTypes::ROOK,
        colour: Colours::WHITE,
    }
}

pub open spec fn spec_white_knight_piece() -> Piece {
    Piece {
        piece_name: PieceNames::WhiteKnight,
        piece_type: PieceTypes::KNIGHT,
        colour: Colours::WHITE,
    }
}

#[verifier::when_used_as_spec(spec_white_knight_piece)]
pub fn white_knight_piece() -> (p: Piece)
    ensures
        p == spec_white_knight_piece(),
{
    Piece {
        piece_name: PieceNames::WhiteKnight,
        piece_type: PieceTypes::KNIGHT,
        colour: Colours::WHITE,
    }
}

pub open spec fn spec_white_bishop_piece() -> Piece {
    Piece {
        piece_name: PieceNames::WhiteBishop,
        piece_type: PieceTypes::BISHOP,
        colour: Colours::WHITE,
    }
}

#[verifier::when_used_as_spec(spec_white_bishop_piece)]
pub fn white_bishop_piece() -> (p: Piece)
    ensures
        p == spec_white_bishop_piece(),
{
    Piece {
        piece_name: PieceNames::WhiteBishop,
        piece_type: PieceTypes::BISHOP,
        colour: Colours::WHITE,
    }
}

pub open spec fn spec_white_pawn_piece() -> Piece {
    Piece {
        piece_name: PieceNames::WhitePawn,
        piece_type: PieceTypes::PAWN,
        colour: Colours::WHITE,
    }
}

#[verifier::when_used_as_spec(spec_white_pawn_piece)]
pub fn white_pawn_piece() -> (p: Piece)
    ensures
        p == spec_white_pawn_piece(),
{
    Piece {
        piece_name: PieceNames::WhitePawn,
        piece_type: PieceTypes::PAWN,
        colour: Colours::WHITE,
    }
}

pub open spec fn spec_black_king_piece() -> Piece {
    Piece {
        piece_name: PieceNames::BlackKing,
        piece_type: PieceTypes::KING,
        colour: Colours::BLACK,
    }
}

#[verifier::when_used_as_spec(spec_black_king_piece)]
pub fn black_king_piece() -> (p: Piece)
    ensures
        p == spec_black_king_piece(),
{
    Piece {
        piece_name: PieceNames::BlackKing,
        piece_type: PieceTypes::KING,
        colour: Colours::BLACK,
    }
}

pub open spec fn spec_black_queen_piece() -> Piece {
    Piece {
        piece_name: PieceNames::BlackQueen,
        piece_type: PieceTypes::QUEEN,
        colour: Colours::BLACK,
    }
}

#[verifier::when_used_as_spec(spec_black_queen_piece)]
pub fn black_queen_piece() -> (p: Piece)
    ensures
        p == spec_black_queen_piece(),
{
    Piece {
        piece_name: PieceNames::BlackQueen,
        piece_type: PieceTypes::QUEEN,
        colour: Colours::BLACK,
    }
}

pub open spec fn spec_black_rook_piece() -> Piece {
    Piece {
        piece_name: PieceNames::BlackRook,
        piece_type: PieceTypes::ROOK,
        colour: Colours::BLACK,
    }
}

#[verifier::when_used_as_spec(spec_black_rook_piece)]
pub fn black_rook_piece() -> (p: Piece)
    ensures
        p == spec_black_rook_piece(),
{
    Piece {
        piece_name: PieceNames::BlackRook,
        piece_type: PieceTypes::ROOK,
        colour: Colours::BLACK,
    }
}

pub open spec fn spec_black_knight_piece() -> Piece {
    Piece {
        piece_name: PieceNames::BlackKnight,
        piece_type: PieceTypes::KNIGHT,
        colour: Colours::BLACK,
    }
}

#[verifier::when_used_as_spec(spec_black_knight_piece)]
pub fn black_knight_piece() -> (p: Piece)
    ensures
        p == spec_black_knight_piece(),
{
    Piece {
        piece_name: PieceNames::BlackKnight,
        piece_type: PieceTypes::KNIGHT,
        colour: Colours::BLACK,
    }
}

pub open spec fn spec_black_bishop_piece() -> Piece {
    Piece {
        piece_name: PieceNames::BlackBishop,
        piece_type: PieceTypes::BISHOP,
        colour: Colours::BLACK,
    }
}

#[verifier::when_used_as_spec(spec_black_bishop_piece)]
pub fn black_bishop_piece() -> (p: Piece)
    ensures
        p == spec_black_bishop_piece(),
{
    Piece {
        piece_name: PieceNames::BlackBishop,
        piece_type: PieceTypes::BISHOP,
        colour: Colours::BLACK,
    }
}

pub open spec fn spec_black_pawn_piece() -> Piece {
    Piece {
        piece_name: PieceNames::BlackPawn,
        piece_type: PieceTypes::PAWN,
        colour: Colours::BLACK,
    }
}

#[verifier::when_used_as_spec(spec_black_pawn_piece)]
pub fn black_pawn_piece() -> (p: Piece)
    ensures
        p == spec_black_pawn_piece(),
{
    Piece {
        piece_name: PieceNames::BlackPawn,
        piece_type: PieceTypes::PAWN,
        colour: Colours::BLACK,
    }
}

pub open spec fn spec_blank_piece() -> Piece {
    Piece {
        piece_name: PieceNames::Blank,
        piece_type: PieceTypes::BLANK,
        colour: Colours::EMPTY,
    }
}

#[verifier::when_used_as_spec(spec_blank_piece)]
pub fn blank_piece() -> (p: Piece)
    ensures
        p == spec_blank_piece(),
{
    Piece {
        piece_name: PieceNames::Blank,
        piece_type: PieceTypes::BLANK,
        colour: Colours::EMPTY,
    }
}

pub open spec fn spec_null_move() -> Move {
    Move {
        start_x: 99,
        start_y: 99,
        end_x: 99,
        end_y: 99,
        start_piece: spec_blank_piece(),
        end_piece: spec_blank_piece(),
        kind: MoveKinds::Normal,
    }
}

/// Sentinel used by a front end to signal "no move". It is never passed to
/// apply, undo or the generators.
#[verifier::when_used_as_spec(spec_null_move)]
pub fn null_move() -> (m: Move)
    ensures
        m == spec_null_move(),
{
    Move {
        start_x: 99,
        start_y: 99,
        end_x: 99,
        end_y: 99,
        start_piece: blank_piece(),
        end_piece: blank_piece(),
        kind: MoveKinds::Normal,
    }
}

pub open spec fn spec_all_castling_rights() -> CastlingRights {
    CastlingRights {
        white_kingside: true,
        black_kingside: true,
        white_queenside: true,
        black_queenside: true,
    }
}

/// The snapshot in force while the rights stack is still empty.
#[verifier::when_used_as_spec(spec_all_castling_rights)]
pub fn all_castling_rights() -> (r: CastlingRights)
    ensures
        r == spec_all_castling_rights(),
{
    CastlingRights {
        white_kingside: true,
        black_kingside: true,
        white_queenside: true,
        black_queenside: true,
    }
}

/// Mathematical view of a `Position`: the pieces of the 64 squares (the
/// transient highlight tags are presentation state and are not part of the
/// game state), side to move, en-passant file, and the two history stacks.
#[verifier::ext_equal]
pub ghost struct PositionV {
    pub board: Seq<Piece>,
    pub turn: int,
    pub en_passant: int,
    pub rights: Seq<CastlingRights>,
    pub history: Seq<Move>,
    pub dragged: PieceNames,
}

impl View for Position {
    type V = PositionV;

    open spec fn view(&self) -> PositionV {
        PositionV {
            board: Seq::new(64, |i: int| self.board@[i].piece),
            turn: self.turn as int,
            en_passant: self.en_passant as int,
            rights: self.castling_rights_history@,
            history: self.move_history@,
            dragged: self.dragged_piece,
        }
    }
}

/// The highlight tags of the 64 squares, for contracts about presentation
/// state.
pub open spec fn hl_view(p: Position) -> Seq<Highlights> {
    Seq::new(64, |i: int| p.board@[i].highlight)
}

/// Flat index of the square with file `x` and rank `y`.
pub open spec fn ix(x: int, y: int) -> int {
    x * 8 + y
}

pub open spec fn on_board(x: int, y: int) -> bool {
    0 <= x < 8 && 0 <= y < 8
}

pub open spec fn sign_of(c: Colours) -> int {
    match c {
        Colours::WHITE => 1,
        Colours::EMPTY => 0,
        Colours::BLACK => -1,
    }
}

/// The numeric value of a colour: +1 for white, -1 for black, 0 for none.
pub fn colour_sign(c: Colours) -> (r: i8)
    ensures
        r as int == sign_of(c),
{
    match c {
        Colours::WHITE => 1,
        Colours::EMPTY => 0,
        Colours::BLACK => -1,
    }
}

/// The piece on square (x, y) in the view.
pub open spec fn at(v: PositionV, x: int, y: int) -> Piece {
    v.board[ix(x, y)]
}

/// A piece value is one of the thirteen canonical pieces.
pub open spec fn piece_ok(p: Piece) -> bool {
    ||| p == spec_white_king_piece()
    ||| p == spec_white_queen_piece()
    ||| p == spec_white_rook_piece()
    ||| p == spec_white_knight_piece()
    ||| p == spec_white_bishop_piece()
    ||| p == spec_white_pawn_piece()
    ||| p == spec_black_king_piece()
    ||| p == spec_black_queen_piece()
    ||| p == spec_black_rook_piece()
    ||| p == spec_black_knight_piece()
    ||| p == spec_black_bishop_piece()
    ||| p == spec_black_pawn_piece()
    ||| p == spec_blank_piece()
}

// ---------------------------------------------------------------------
// Small verified accessors for the flat board array.
// ---------------------------------------------------------------------

/// Read the piece on square (x, y).
pub fn piece_at(pos: &Position, x: usize, y: usize) -> (p: Piece)
    requires
        x < 8,
        y < 8,
    ensures
        p == at(pos@, x as int, y as int),
{
    pos.board[x * 8 + y].piece
}

/// Replace the piece on square (x, y), keeping its highlight tag.
pub fn set_piece(pos: &mut Position, x: usize, y: usize, p: Piece)
    requires
        x < 8,
        y < 8,
    ensures
        final(pos)@ == (PositionV {
            board: old(pos)@.board.update(ix(x as int, y as int), p),
            ..old(pos)@
        }),
        hl_view(*final(pos)) == hl_view(*old(pos)),
{
    let i = x * 8 + y;
    let h = pos.board[i].highlight;
    pos.board[i] = Square { piece: p, highlight: h };
    proof {
        assert(pos@.board =~= old(pos)@.board.update(ix(x as int, y as int), p));
        assert(pos@ =~= (PositionV {
            board: old(pos)@.board.update(ix(x as int, y as int), p),
            ..old(pos)@
        }));
        assert(hl_view(*pos) =~= hl_view(*old(pos)));
    }
}

/// Replace the highlight tag of square (x, y), keeping its piece.
pub fn set_highlight(pos: &mut Position, x: usize, y: usize, h: Highlights)
    requires
        x < 8,
        y < 8,
    ensures
        final(pos)@ == old(pos)@,
        hl_view(*final(pos)) == hl_view(*old(pos)).update(ix(x as int, y as int), h),
{
    let i = x * 8 + y;
    let p = pos.board[i].piece;
    pos.board[i] = Square { piece: p, highlight: h };
    proof {
        assert(pos@ =~= old(pos)@);
        assert(hl_view(*pos) =~= hl_view(*old(pos)).update(ix(x as int, y as int), h));
    }
}

/// Read the highlight tag of square (x, y).
pub fn highlight_at(pos: &Position, x: usize, y: usize) -> (h: Highlights)
    requires
        x < 8,
        y < 8,
    ensures
        h == hl_view(*pos)[ix(x as int, y as int)],
{
    pos.board[x * 8 + y].highlight
}


// ---------------------------------------------------------------------
// Move codec: building a move record from two coordinates.
// ---------------------------------------------------------------------

/// A pawn move onto the final rank for its colour: applied as auto-queening.
pub open spec fn is_promotion_pattern(sp: Piece, ey: int) -> bool {
    sp.piece_type == PieceTypes::PAWN && ((sp.colour == Colours::WHITE && ey == 7) || (
    sp.colour == Colours::BLACK && ey == 0))
}

/// A king moving two files sideways from its home square.
pub open spec fn is_castle_pattern(sp: Piece, sx: int, sy: int, ex: int, ey: int, kingside: bool) -> bool {
    &&& sp.piece_type == PieceTypes::KING
    &&& sx == 4
    &&& ((sp.colour == Colours::WHITE && sy == 0) || (sp.colour == Colours::BLACK && sy == 7))
    &&& ey == sy
    &&& ex == (if kingside { 6int } else { 2int })
}

/// A pawn moving diagonally onto an empty square, on the two ranks where an
/// en-passant capture happens for its colour.
pub open spec fn is_ep_pattern(sp: Piece, ep: Piece, sx: int, sy: int, ex: int, ey: int) -> bool {
    &&& sp.piece_type == PieceTypes::PAWN
    &&& sx != ex
    &&& ep == spec_blank_piece()
    &&& ((sp.colour == Colours::WHITE && sy == 4 && ey == 5) || (sp.colour == Colours::BLACK
        && sy == 3 && ey == 2))
}

/// The kind tag a move gets when it is built: promotion and castling take
/// precedence (they are mutually exclusive with the en-passant ranks).
pub open spec fn kind_of(sp: Piece, ep: Piece, sx: int, sy: int, ex: int, ey: int) -> MoveKinds {
    if is_promotion_pattern(sp, ey) {
        MoveKinds::Promotion
    } else if is_castle_pattern(sp, sx, sy, ex, ey, true) {
        MoveKinds::CastleKingside
    } else if is_castle_pattern(sp, sx, sy, ex, ey, false) {
        MoveKinds::CastleQueenside
    } else if is_ep_pattern(sp, ep, sx, sy, ex, ey) {
        MoveKinds::EnPassant
    } else {
        MoveKinds::Normal
    }
}

/// The move record built from two coordinates and the position snapshot.
pub open spec fn gen_move(v: PositionV, sx: int, sy: int, ex: int, ey: int) -> Move {
    Move {
        start_x: sx as usize,
        start_y: sy as usize,
        end_x: ex as usize,
        end_y: ey as usize,
        start_piece: at(v, sx, sy),
        end_piece: at(v, ex, ey),
        kind: kind_of(at(v, sx, sy), at(v, ex, ey), sx, sy, ex, ey),
    }
}

/// Builds the move record for the move from (start_x, start_y) to
/// (end_x, end_y): the two occupants are snapshotted and the move kind is
/// decided here, once, from the geometry and the snapshot.
pub fn create_move(
    game_position: &Position,
    start_x: usize,
    start_y: usize,
    end_x: usize,
    end_y: usize,
) -> (m: Move)
    requires
        start_x < 8,
        start_y < 8,
        end_x < 8,
        end_y < 8,
    ensures
        m == gen_move(game_position@, start_x as int, start_y as int, end_x as int, end_y as int),
{
    let sp = piece_at(game_position, start_x, start_y);
    let ep = piece_at(game_position, end_x, end_y);
    let kind: MoveKinds;
    if sp.piece_type == PieceTypes::PAWN && ((sp.colour == Colours::WHITE && end_y == 7) || (
    sp.colour == Colours::BLACK && end_y == 0)) {
        kind = MoveKinds::Promotion;
    } else if sp.piece_type == PieceTypes::KING && start_x == 4 && ((sp.colour == Colours::WHITE
        && start_y == 0) || (sp.colour == Colours::BLACK && start_y == 7)) && end_y == start_y
        && end_x == 6 {
        kind = MoveKinds::CastleKingside;
    } else if sp.piece_type == PieceTypes::KING && start_x == 4 && ((sp.colour == Colours::WHITE
        && start_y == 0) || (sp.colour == Colours::BLACK && start_y == 7)) && end_y == start_y
        && end_x == 2 {
        kind = MoveKinds::CastleQueenside;
    } else if sp.piece_type == PieceTypes::PAWN && start_x != end_x && ep == blank_piece() && ((
    sp.colour == Colours::WHITE && start_y == 4 && end_y == 5) || (sp.colour == Colours::BLACK
        && start_y == 3 && end_y == 2)) {
        kind = MoveKinds::EnPassant;
    } else {
        kind = MoveKinds::Normal;
    }
    Move {
        start_x,
        start_y,
        end_x,
        end_y,
        start_piece: sp,
        end_piece: ep,
        kind,
    }
}

pub open spec fn is_double_spec(m: Move) -> bool {
    ||| (m.start_piece.piece_name == PieceNames::WhitePawn && m.start_y == 1 && m.end_y == 3)
    ||| (m.start_piece.piece_name == PieceNames::BlackPawn && m.start_y == 6 && m.end_y == 4)
}

/// Whether the move is a two-square pawn push, the only move that opens an
/// en-passant file.
pub fn is_double_pawn_move(m: Move) -> (r: bool)
    ensures
        r == is_double_spec(m),
{
    if m.start_piece.piece_name == PieceNames::WhitePawn && m.start_y == 1 && m.end_y == 3 {
        return true;
    }
    if m.start_piece.piece_name == PieceNames::BlackPawn && m.start_y == 6 && m.end_y == 4 {
        return true;
    }
    false
}

/// Whether the move record matches the en-passant capture pattern.
pub fn is_move_en_passant(m: Move) -> (r: bool)
    ensures
        r == is_ep_pattern(
            m.start_piece,
            m.end_piece,
            m.start_x as int,
            m.start_y as int,
            m.end_x as int,
            m.end_y as int,
        ),
{
    let start = m.start_piece;
    if start.piece_type != PieceTypes::PAWN {
        return false;
    }
    if m.start_x == m.end_x {
        return false;
    }
    if m.end_piece != blank_piece() {
        return false;
    }
    if start.colour == Colours::WHITE {
        return m.start_y == 4 && m.end_y == 5;
    }
    if start.colour == Colours::BLACK {
        return m.start_y == 3 && m.end_y == 2;
    }
    false
}

// ---------------------------------------------------------------------
// Well-formedness of a position.
// ---------------------------------------------------------------------

pub open spec fn move_in_bounds(m: Move) -> bool {
    m.start_x < 8 && m.start_y < 8 && m.end_x < 8 && m.end_y < 8
}

/// A faithfully built move record: in bounds, not a null transition, and
/// carrying the kind tag its own geometry and snapshots dictate — exactly
/// what `create_move` produces.
pub open spec fn move_record_ok(m: Move) -> bool {
    &&& move_in_bounds(m)
    &&& !(m.start_x == m.end_x && m.start_y == m.end_y)
    &&& m.kind == kind_of(
        m.start_piece,
        m.end_piece,
        m.start_x as int,
        m.start_y as int,
        m.end_x as int,
        m.end_y as int,
    )
}

/// The en-passant file determined by a move history: the start file of the
/// last move if that move was a double pawn push, else none.
pub open spec fn ep_of_history(h: Seq<Move>) -> int {
    if h.len() > 0 && is_double_spec(h.last()) {
        h.last().start_x as int
    } else {
        -1
    }
}

pub open spec fn board_ok(v: PositionV) -> bool {
    &&& v.board.len() == 64
    &&& forall|i: int| 0 <= i < 64 ==> piece_ok(#[trigger] v.board[i])
}

pub open spec fn turn_ok(v: PositionV) -> bool {
    v.turn == 1 || v.turn == -1
}

pub open spec fn history_in_bounds(v: PositionV) -> bool {
    forall|i: int| 0 <= i < v.history.len() ==> move_in_bounds(#[trigger] v.history[i])
}

pub open spec fn history_ok(v: PositionV) -> bool {
    &&& v.rights.len() == v.history.len()
    &&& history_in_bounds(v)
    &&& forall|i: int| 0 <= i < v.history.len() ==> move_record_ok(#[trigger] v.history[i])
}

/// The en-passant file agrees with the history, and when it is set the
/// pawn that just double-pushed stands on the bypassed file, on the rank
/// the side to move would capture through.
pub open spec fn ep_ok(v: PositionV) -> bool {
    &&& v.en_passant == ep_of_history(v.history)
    &&& (v.en_passant >= 0 && v.turn == 1 ==> at(v, v.en_passant, 4) == spec_black_pawn_piece())
    &&& (v.en_passant >= 0 && v.turn == -1 ==> at(v, v.en_passant, 3) == spec_white_pawn_piece())
}

pub open spec fn king_of(c: Colours) -> Piece {
    if c == Colours::WHITE {
        spec_white_king_piece()
    } else {
        spec_black_king_piece()
    }
}

pub open spec fn has_king(v: PositionV, c: Colours) -> bool {
    exists|i: int| 0 <= i < 64 && v.board[i] == king_of(c)
}

pub open spec fn king_unique(v: PositionV, c: Colours) -> bool {
    forall|i: int, j: int|
        0 <= i < 64 && 0 <= j < 64 && #[trigger] v.board[i] == king_of(c) && #[trigger] v.board[j]
            == king_of(c) ==> i == j
}

pub open spec fn kings_ok(v: PositionV) -> bool {
    &&& has_king(v, Colours::WHITE)
    &&& has_king(v, Colours::BLACK)
    &&& king_unique(v, Colours::WHITE)
    &&& king_unique(v, Colours::BLACK)
}

/// Well-formed game state: canonical pieces, a valid side to move, an
/// en-passant file that agrees with the history, parallel history stacks
/// with in-bounds moves, and exactly one king of each colour.
pub open spec fn wf(v: PositionV) -> bool {
    &&& board_ok(v)
    &&& turn_ok(v)
    &&& ep_ok(v)
    &&& history_ok(v)
    &&& kings_ok(v)
}


// ---------------------------------------------------------------------
// The standard starting placement.
// ---------------------------------------------------------------------

pub open spec fn white_back_piece(x: int) -> Piece {
    if x == 0 || x == 7 {
        spec_white_rook_piece()
    } else if x == 1 || x == 6 {
        spec_white_knight_piece()
    } else if x == 2 || x == 5 {
        spec_white_bishop_piece()
    } else if x == 3 {
        spec_white_queen_piece()
    } else {
        spec_white_king_piece()
    }
}

pub open spec fn black_back_piece(x: int) -> Piece {
    if x == 0 || x == 7 {
        spec_black_rook_piece()
    } else if x == 1 || x == 6 {
        spec_black_knight_piece()
    } else if x == 2 || x == 5 {
        spec_black_bishop_piece()
    } else if x == 3 {
        spec_black_queen_piece()
    } else {
        spec_black_king_piece()
    }
}

/// The piece that the standard start puts on square (x, y); blank on the
/// four middle ranks.
pub open spec fn initial_piece(x: int, y: int) -> Piece {
    if y == 0 {
        white_back_piece(x)
    } else if y == 1 {
        spec_white_pawn_piece()
    } else if y == 6 {
        spec_black_pawn_piece()
    } else if y == 7 {
        black_back_piece(x)
    } else {
        spec_blank_piece()
    }
}

/// The board after `initialise_board`: the four outer ranks get the
/// standard placement, the middle ranks keep what they held.
pub open spec fn seeded_board(b: Seq<Piece>) -> Seq<Piece> {
    Seq::new(
        64,
        |i: int|
            if i % 8 == 0 || i % 8 == 1 || i % 8 == 6 || i % 8 == 7 {
                initial_piece(i / 8, i % 8)
            } else {
                b[i]
            },
    )
}

/// Populates the standard starting placement onto the four outer ranks of
/// the board. The rest of the position is untouched.
pub fn initialise_board(game_position: &mut Position)
    ensures
        final(game_position)@ == (PositionV {
            board: seeded_board(old(game_position)@.board),
            ..old(game_position)@
        }),
        hl_view(*final(game_position)) == hl_view(*old(game_position)),
{
    set_piece(game_position, 0, 1, white_pawn_piece());
    set_piece(game_position, 0, 6, black_pawn_piece());
    set_piece(game_position, 1, 1, white_pawn_piece());
    set_piece(game_position, 1, 6, black_pawn_piece());
    set_piece(game_position, 2, 1, white_pawn_piece());
    set_piece(game_position, 2, 6, black_pawn_piece());
    set_piece(game_position, 3, 1, white_pawn_piece());
    set_piece(game_position, 3, 6, black_pawn_piece());
    set_piece(game_position, 4, 1, white_pawn_piece());
    set_piece(game_position, 4, 6, black_pawn_piece());
    set_piece(game_position, 5, 1, white_pawn_piece());
    set_piece(game_position, 5, 6, black_pawn_piece());
    set_piece(game_position, 6, 1, white_pawn_piece());
    set_piece(game_position, 6, 6, black_pawn_piece());
    set_piece(game_position, 7, 1, white_pawn_piece());
    set_piece(game_position, 7, 6, black_pawn_piece());
    set_piece(game_position, 0, 0, white_rook_piece());
    set_piece(game_position, 1, 0, white_knight_piece());
    set_piece(game_position, 2, 0, white_bishop_piece());
    set_piece(game_position, 3, 0, white_queen_piece());
    set_piece(game_position, 4, 0, white_king_piece());
    set_piece(game_position, 5, 0, white_bishop_piece());
    set_piece(game_position, 6, 0, white_knight_piece());
    set_piece(game_position, 7, 0, white_rook_piece());
    set_piece(game_position, 0, 7, black_rook_piece());
    set_piece(game_position, 1, 7, black_knight_piece());
    set_piece(game_position, 2, 7, black_bishop_piece());
    set_piece(game_position, 3, 7, black_queen_piece());
    set_piece(game_position, 4, 7, black_king_piece());
    set_piece(game_position, 5, 7, black_bishop_piece());
    set_piece(game_position, 6, 7, black_knight_piece());
    set_piece(game_position, 7, 7, black_rook_piece());
    proof {
        assert(game_position@.board =~= seeded_board(old(game_position)@.board));
        assert(game_position@ =~= (PositionV {
            board: seeded_board(old(game_position)@.board),
            ..old(game_position)@
        }));
    }
}

/// The standard initial position: white to move, no en-passant file, empty
/// history stacks.
pub open spec fn start_pos_spec() -> PositionV {
    PositionV {
        board: Seq::new(64, |i: int| initial_piece(i / 8, i % 8)),
        turn: 1,
        en_passant: -1,
        rights: Seq::empty(),
        history: Seq::empty(),
        dragged: PieceNames::Blank,
    }
}

/// Builds the standard initial position.
pub fn start_position() -> (p: Position)
    ensures
        p@ == start_pos_spec(),
{
    let blank_square = Square { piece: blank_piece(), highlight: Highlights::NORMAL };
    let mut game_position = Position {
        board: [blank_square; 64],
        turn: 1,
        dragged_piece: PieceNames::Blank,
        en_passant: -1,
        castling_rights_history: Vec::new(),
        move_history: Vec::new(),
    };
    initialise_board(&mut game_position);
    proof {
        assert(game_position@.board =~= start_pos_spec().board);
        assert(game_position@ =~= start_pos_spec());
    }
    game_position
}

/// The standard initial position is well formed.
pub proof fn lemma_start_position_wf()
    ensures
        wf(start_pos_spec()),
{
    let v = start_pos_spec();
    assert forall|i: int| 0 <= i < 64 implies piece_ok(#[trigger] v.board[i]) by {
        assert(v.board[i] == initial_piece(i / 8, i % 8));
    }
    assert(v.board[ix(4, 0)] == king_of(Colours::WHITE));
    assert(v.board[ix(4, 7)] == king_of(Colours::BLACK));
    assert forall|i: int, j: int|
        0 <= i < 64 && 0 <= j < 64 && #[trigger] v.board[i] == king_of(Colours::WHITE)
            && #[trigger] v.board[j] == king_of(Colours::WHITE) implies i == j by {
        assert(v.board[i] == initial_piece(i / 8, i % 8));
        assert(v.board[j] == initial_piece(j / 8, j % 8));
        assert(i % 8 == 0 && i / 8 == 4);
        assert(j % 8 == 0 && j / 8 == 4);
    }
    assert forall|i: int, j: int|
        0 <= i < 64 && 0 <= j < 64 && #[trigger] v.board[i] == king_of(Colours::BLACK)
            && #[trigger] v.board[j] == king_of(Colours::BLACK) implies i == j by {
        assert(v.board[i] == initial_piece(i / 8, i % 8));
        assert(v.board[j] == initial_piece(j / 8, j % 8));
        assert(i % 8 == 7 && i / 8 == 4);
        assert(j % 8 == 7 && j / 8 == 4);
    }
}

/// Clears every legal-destination highlight, leaving the other highlight
/// tags and the game state untouched.
pub fn remove_legal_highlights(game_position: &mut Position)
    ensures
        final(game_position)@ == old(game_position)@,
        forall|i: int|
            0 <= i < 64 ==> hl_view(*final(game_position))[i] == (if hl_view(
                *old(game_position),
            )[i] == Highlights::LEGAL {
                Highlights::NORMAL
            } else {
                hl_view(*old(game_position))[i]
            }),
{
    let ghost h0 = hl_view(*old(game_position));
    let mut x: usize = 0;
    while x < 8
        invariant
            x <= 8,
            game_position@ == old(game_position)@,
            h0 == hl_view(*old(game_position)),
            forall|i: int|
                0 <= i < 64 ==> hl_view(*game_position)[i] == (if i < (x * 8) as int && h0[i]
                    == Highlights::LEGAL {
                    Highlights::NORMAL
                } else {
                    h0[i]
                }),
        decreases 8 - x,
    {
        let mut y: usize = 0;
        while y < 8
            invariant
                x < 8,
                y <= 8,
                game_position@ == old(game_position)@,
                h0 == hl_view(*old(game_position)),
                forall|i: int|
                    0 <= i < 64 ==> hl_view(*game_position)[i] == (if i < (x * 8 + y) as int
                        && h0[i] == Highlights::LEGAL {
                        Highlights::NORMAL
                    } else {
                        h0[i]
                    }),
            decreases 8 - y,
        {
            if highlight_at(game_position, x, y) == Highlights::LEGAL {
                set_highlight(game_position, x, y, Highlights::NORMAL);
            }
            y = y + 1;
        }
        x = x + 1;
    }
}

} // verus!
