use vstd::prelude::*;
use crate::bitboard::sq_bb;
use crate::constants::{PieceType, CORNERS, RANK_1, RANK_8};
use crate::game_move::GameMove;
use crate::position::Position;
use crate::position_helper::PositionHelper;

verus! {

/// Remembers the state of a position before a move so that the move can be taken back.
pub struct MoveMaker {
    pub old_wp: u64,
    pub old_wn: u64,
    pub old_wb: u64,
    pub old_wr: u64,
    pub old_wq: u64,
    pub old_wk: u64,
    pub old_bp: u64,
    pub old_bn: u64,
    pub old_bb: u64,
    pub old_br: u64,
    pub old_bq: u64,
    pub old_bk: u64,
    pub old_en_passant_sq: u64,
    pub old_castling_rights: u64,
    pub old_fifty_move_count: u8,
    pub old_king_in_check: bool,
    pub old_king_in_double_check: bool,
    pub old_is_stalemate: bool,
    pub old_is_checkmate: bool,
    pub old_pin_ray_masks: [u64; 64],
    pub old_check_ray_mask: u64,
}

// ---------------------------------------------------------------------------
// What making a move does to a position
// ---------------------------------------------------------------------------

/// Source and target squares of the move.
pub open spec fn movement_bb(m: GameMove) -> u64 {
    sq_bb(m.source_square as u64) | sq_bb(m.target_square as u64)
}

/// The move is an en passant capture: a pawn moves to the en passant square.
pub open spec fn is_en_passant_capture(p: Position, m: GameMove) -> bool {
    p.en_passant_sq == sq_bb(m.target_square as u64) && m.piece == PieceType::PAWN
}

/// The square whose enemy piece is removed: the target square, or for an en passant
/// capture the square behind it (one rank down for white, up for black).
pub open spec fn captured_square_board(p: Position, m: GameMove) -> u64 {
    let t = sq_bb(m.target_square as u64);
    if is_en_passant_capture(p, m) && p.white_to_move {
        t >> 8u64
    } else if is_en_passant_capture(p, m) && !p.white_to_move {
        t << 8u64
    } else {
        t
    }
}

/// Number of squares between source and target index.
pub open spec fn square_distance(m: GameMove) -> int {
    if m.target_square >= m.source_square {
        m.target_square - m.source_square
    } else {
        m.source_square - m.target_square
    }
}

/// The square halfway between source and target.
pub open spec fn center_square_board(m: GameMove) -> u64 {
    sq_bb(((m.source_square + m.target_square) / 2) as u64)
}

/// The rook squares toggled by a castling king move: the square the king passes and the
/// corner next to (kingside) or two beyond (queenside) the target.
pub open spec fn castle_rook_board(m: GameMove, captured: u64) -> u64 {
    center_square_board(m) | (((captured << 1u64) | (captured >> 2u64)) & CORNERS)
}

/// A bitboard of the side that moves, of piece kind `kind`, after the move.
pub open spec fn mover_board(b: u64, kind: PieceType, p: Position, m: GameMove) -> u64 {
    let mv = movement_bb(m);
    let cap = captured_square_board(p, m);
    let b1 = if m.piece == kind {
        b ^ mv
    } else {
        b
    };
    let b2 = if kind == PieceType::ROOK && m.piece == PieceType::KING && square_distance(m) == 2 {
        b1 ^ castle_rook_board(m, cap)
    } else {
        b1
    };
    let b3 = if kind == PieceType::PAWN && m.promotion_piece != PieceType::NONE {
        b2 ^ cap
    } else {
        b2
    };
    if kind != PieceType::PAWN && kind != PieceType::KING && m.promotion_piece == kind {
        b3 ^ cap
    } else {
        b3
    }
}

/// A non-king bitboard of the side that does not move, after the move: a piece on
/// the captured square is removed.
pub open spec fn captured_board(b: u64, p: Position, m: GameMove) -> u64 {
    let cap = captured_square_board(p, m);
    if b & cap > 0 {
        b ^ cap
    } else {
        b
    }
}

/// Castling rights after the move: any move from or to a corner removes the right at
/// that corner; any king move removes the rights of its side.
pub open spec fn castling_after(p: Position, m: GameMove) -> u64 {
    let corners = CORNERS & movement_bb(m);
    let c0 = p.castling_rights & !((corners >> 1u64) | (corners << 2u64));
    if m.piece == PieceType::KING {
        if p.white_to_move {
            c0 & !RANK_1
        } else {
            c0 & !RANK_8
        }
    } else {
        c0
    }
}

/// The position after the move, before its occupancy is recomputed.
pub open spec fn moved_pieces(p: Position, m: GameMove) -> Position {
    let white = p.white_to_move;
    Position {
        wp: if white { mover_board(p.wp, PieceType::PAWN, p, m) } else { captured_board(p.wp, p, m) },
        wn: if white { mover_board(p.wn, PieceType::KNIGHT, p, m) } else { captured_board(p.wn, p, m) },
        wb: if white { mover_board(p.wb, PieceType::BISHOP, p, m) } else { captured_board(p.wb, p, m) },
        wr: if white { mover_board(p.wr, PieceType::ROOK, p, m) } else { captured_board(p.wr, p, m) },
        wq: if white { mover_board(p.wq, PieceType::QUEEN, p, m) } else { captured_board(p.wq, p, m) },
        wk: if white { mover_board(p.wk, PieceType::KING, p, m) } else { p.wk },
        bp: if !white { mover_board(p.bp, PieceType::PAWN, p, m) } else { captured_board(p.bp, p, m) },
        bn: if !white { mover_board(p.bn, PieceType::KNIGHT, p, m) } else { captured_board(p.bn, p, m) },
        bb: if !white { mover_board(p.bb, PieceType::BISHOP, p, m) } else { captured_board(p.bb, p, m) },
        br: if !white { mover_board(p.br, PieceType::ROOK, p, m) } else { captured_board(p.br, p, m) },
        bq: if !white { mover_board(p.bq, PieceType::QUEEN, p, m) } else { captured_board(p.bq, p, m) },
        bk: if !white { mover_board(p.bk, PieceType::KING, p, m) } else { p.bk },
        castling_rights: castling_after(p, m),
        move_number: if white { p.move_number } else { (p.move_number + 1) as u16 },
        en_passant_sq: if m.piece == PieceType::PAWN && square_distance(m) == 16 {
            center_square_board(m)
        } else {
            0
        },
        fifty_move_count: if m.piece == PieceType::PAWN || m.is_capture {
            0
        } else {
            (p.fifty_move_count + 1) as u8
        },
        white_to_move: !white,
        king_in_check: false,
        king_in_double_check: false,
        is_stalemate: false,
        is_checkmate: false,
        check_ray_mask: u64::MAX,
        ..p
    }
}

/// No square is pinned: every pin mask allows the whole board.
pub open spec fn no_pins(masks: [u64; 64]) -> bool {
    forall|i: int| 0 <= i < 64 ==> masks[i] == u64::MAX
}

/// The position after the move with pin masks `masks`: pieces moved, side to move switched,
/// occupancy recomputed, checks and end-of-game flags cleared.
pub open spec fn made_position(p: Position, m: GameMove, masks: [u64; 64]) -> Position {
    Position { pin_ray_masks: masks, ..moved_pieces(p, m) }.with_occupancy()
}

/// The inputs on which making the move does not fail.
pub open spec fn make_move_ok(p: Position, m: GameMove) -> bool {
    &&& m.source_square < 64
    &&& m.target_square < 64
    &&& p.fifty_move_count < 255
    &&& (!p.white_to_move ==> p.move_number < u16::MAX)
}

impl MoveMaker {
    /// The saved state taken from a position.
    pub open spec fn saved_from(p: Position) -> MoveMaker {
        MoveMaker {
            old_wp: p.wp,
            old_wn: p.wn,
            old_wb: p.wb,
            old_wr: p.wr,
            old_wq: p.wq,
            old_wk: p.wk,
            old_bp: p.bp,
            old_bn: p.bn,
            old_bb: p.bb,
            old_br: p.br,
            old_bq: p.bq,
            old_bk: p.bk,
            old_en_passant_sq: p.en_passant_sq,
            old_castling_rights: p.castling_rights,
            old_fifty_move_count: p.fifty_move_count,
            old_king_in_check: p.king_in_check,
            old_king_in_double_check: p.king_in_double_check,
            old_is_stalemate: p.is_stalemate,
            old_is_checkmate: p.is_checkmate,
            old_pin_ray_masks: p.pin_ray_masks,
            old_check_ray_mask: p.check_ray_mask,
        }
    }

    /// The position after taking a move back with this saved state: side to move switched back,
    /// saved fields restored, move number taken back after a black move, occupancy recomputed.
    pub open spec fn unmade_position(self, q: Position) -> Position {
        Position {
            white_to_move: !q.white_to_move,
            wp: self.old_wp,
            wn: self.old_wn,
            wb: self.old_wb,
            wr: self.old_wr,
            wq: self.old_wq,
            wk: self.old_wk,
            bp: self.old_bp,
            bn: self.old_bn,
            bb: self.old_bb,
            br: self.old_br,
            bq: self.old_bq,
            bk: self.old_bk,
            en_passant_sq: self.old_en_passant_sq,
            castling_rights: self.old_castling_rights,
            move_number: if q.white_to_move {
                (q.move_number - 1) as u16
            } else {
                q.move_number
            },
            fifty_move_count: self.old_fifty_move_count,
            king_in_check: self.old_king_in_check,
            king_in_double_check: self.old_king_in_double_check,
            is_stalemate: self.old_is_stalemate,
            is_checkmate: self.old_is_checkmate,
            pin_ray_masks: self.old_pin_ray_masks,
            check_ray_mask: self.old_check_ray_mask,
            ..q
        }.with_occupancy()
    }

    /// Saves the state of the position that a move changes.
    pub fn save_position_state(&mut self, position: &Position)
        ensures
            *final(self) == MoveMaker::saved_from(*position),
    {
        self.old_wp = position.wp;
        self.old_wn = position.wn;
        self.old_wb = position.wb;
        self.old_wr = position.wr;
        self.old_wq = position.wq;
        self.old_wk = position.wk;
        self.old_bp = position.bp;
        self.old_bn = position.bn;
        self.old_bb = position.bb;
        self.old_br = position.br;
        self.old_bq = position.bq;
        self.old_bk = position.bk;
        self.old_en_passant_sq = position.en_passant_sq;
        self.old_castling_rights = position.castling_rights;
        self.old_fifty_move_count = position.fifty_move_count;
        self.old_king_in_check = position.king_in_check;
        self.old_king_in_double_check = position.king_in_double_check;
        self.old_is_stalemate = position.is_stalemate;
        self.old_is_checkmate = position.is_checkmate;
        self.old_pin_ray_masks = position.pin_ray_masks;
        self.old_check_ray_mask = position.check_ray_mask;
    }

    /// The square of the piece a move captures and the board of its source and target squares.
    pub fn calc_make_move_common_objects(
        white_to_move: bool,
        is_pawn_move: bool,
        en_passant_sq: u64,
        game_move: &GameMove,
    ) -> (r: (u64, u64))
        requires
            game_move.source_square < 64,
            game_move.target_square < 64,
        ensures
            ({
                let t = sq_bb(game_move.target_square as u64);
                let ep = en_passant_sq == t && is_pawn_move;
                &&& r.0 == (if ep && white_to_move {
                    t >> 8u64
                } else if ep && !white_to_move {
                    t << 8u64
                } else {
                    t
                })
                &&& r.1 == movement_bb(*game_move)
            }),
    {
        let movement_board: u64 = (1u64 << (game_move.source_square as u64)) | (1u64
            << (game_move.target_square as u64));
        let mut captured_piece_square: u64 = 1u64 << (game_move.target_square as u64);
        let is_en_passant_capture = en_passant_sq == captured_piece_square && is_pawn_move;
        let ghost t = captured_piece_square;
        captured_piece_square = (PositionHelper::bool_to_bitboard(
            is_en_passant_capture && white_to_move,
        ) & (captured_piece_square >> 8)) | (PositionHelper::bool_to_bitboard(
            is_en_passant_capture && !white_to_move,
        ) & (captured_piece_square << 8)) | (PositionHelper::bool_to_bitboard(
            !is_en_passant_capture,
        ) & captured_piece_square);
        proof {
            lemma_mask_select(t >> 8u64);
            lemma_mask_select(t << 8u64);
            lemma_mask_select(t);
            lemma_mask_select(0);
        }
        (captured_piece_square, movement_board)
    }

    fn move_white_piece(position: &mut Position, piece: PieceType, movement_board: u64, castle_rook: u64)
        ensures
            *final(position) == (Position {
                wp: if piece == PieceType::PAWN { old(position).wp ^ movement_board } else { old(position).wp },
                wn: if piece == PieceType::KNIGHT { old(position).wn ^ movement_board } else { old(position).wn },
                wb: if piece == PieceType::BISHOP { old(position).wb ^ movement_board } else { old(position).wb },
                wq: if piece == PieceType::QUEEN { old(position).wq ^ movement_board } else { old(position).wq },
                wr: if piece == PieceType::ROOK {
                    old(position).wr ^ movement_board
                } else if piece == PieceType::KING {
                    old(position).wr ^ castle_rook
                } else {
                    old(position).wr
                },
                wk: if piece == PieceType::KING { old(position).wk ^ movement_board } else { old(position).wk },
                castling_rights: if piece == PieceType::KING {
                    old(position).castling_rights & !RANK_1
                } else {
                    old(position).castling_rights
                },
                ..*old(position)
            }),
    {
        match piece {
            PieceType::PAWN => position.wp = position.wp ^ movement_board,
            PieceType::KNIGHT => position.wn = position.wn ^ movement_board,
            PieceType::BISHOP => position.wb = position.wb ^ movement_board,
            PieceType::QUEEN => position.wq = position.wq ^ movement_board,
            PieceType::ROOK => position.wr = position.wr ^ movement_board,
            PieceType::KING => {
                position.wk = position.wk ^ movement_board;
                // Any king move removes castling rights on both sides
                position.castling_rights = position.castling_rights & !RANK_1;
                // Move rook to be beside the king, if the king has just moved 2 squares (i.e. castled)
                position.wr = position.wr ^ castle_rook;
            },
            PieceType::NONE => {},
        }
    }

    fn move_black_piece(position: &mut Position, piece: PieceType, movement_board: u64, castle_rook: u64)
        ensures
            *final(position) == (Position {
                bp: if piece == PieceType::PAWN { old(position).bp ^ movement_board } else { old(position).bp },
                bn: if piece == PieceType::KNIGHT { old(position).bn ^ movement_board } else { old(position).bn },
                bb: if piece == PieceType::BISHOP { old(position).bb ^ movement_board } else { old(position).bb },
                bq: if piece == PieceType::QUEEN { old(position).bq ^ movement_board } else { old(position).bq },
                br: if piece == PieceType::ROOK {
                    old(position).br ^ movement_board
                } else if piece == PieceType::KING {
                    old(position).br ^ castle_rook
                } else {
                    old(position).br
                },
                bk: if piece == PieceType::KING { old(position).bk ^ movement_board } else { old(position).bk },
                castling_rights: if piece == PieceType::KING {
                    old(position).castling_rights & !RANK_8
                } else {
                    old(position).castling_rights
                },
                ..*old(position)
            }),
    {
        match piece {
            PieceType::PAWN => position.bp = position.bp ^ movement_board,
            PieceType::KNIGHT => position.bn = position.bn ^ movement_board,
            PieceType::BISHOP => position.bb = position.bb ^ movement_board,
            PieceType::QUEEN => position.bq = position.bq ^ movement_board,
            PieceType::ROOK => position.br = position.br ^ movement_board,
            PieceType::KING => {
                position.bk = position.bk ^ movement_board;
                // Any king move removes castling rights on both sides
                position.castling_rights = position.castling_rights & !RANK_8;
                // Move rook to be beside the king, if the king has just moved 2 squares (i.e. castled)
                position.br = position.br ^ castle_rook;
            },
            PieceType::NONE => {},
        }
    }

    fn promote_white(position: &mut Position, promotion_piece: PieceType, target_square_board: u64)
        ensures
            *final(position) == (Position {
                wp: if promotion_piece != PieceType::NONE { old(position).wp ^ target_square_board } else { old(position).wp },
                wn: if promotion_piece == PieceType::KNIGHT { old(position).wn ^ target_square_board } else { old(position).wn },
                wr: if promotion_piece == PieceType::ROOK { old(position).wr ^ target_square_board } else { old(position).wr },
                wb: if promotion_piece == PieceType::BISHOP { old(position).wb ^ target_square_board } else { old(position).wb },
                wq: if promotion_piece == PieceType::QUEEN { old(position).wq ^ target_square_board } else { old(position).wq },
                ..*old(position)
            }),
    {
        if promotion_piece != PieceType::NONE {
            position.wp = position.wp ^ target_square_board;
            match promotion_piece {
                PieceType::KNIGHT => position.wn = position.wn ^ target_square_board,
                PieceType::ROOK => position.wr = position.wr ^ target_square_board,
                PieceType::BISHOP => position.wb = position.wb ^ target_square_board,
                PieceType::QUEEN => position.wq = position.wq ^ target_square_board,
                _ => {},
            }
        }
    }

    fn promote_black(position: &mut Position, promotion_piece: PieceType, target_square_board: u64)
        ensures
            *final(position) == (Position {
                bp: if promotion_piece != PieceType::NONE { old(position).bp ^ target_square_board } else { old(position).bp },
                bn: if promotion_piece == PieceType::KNIGHT { old(position).bn ^ target_square_board } else { old(position).bn },
                br: if promotion_piece == PieceType::ROOK { old(position).br ^ target_square_board } else { old(position).br },
                bb: if promotion_piece == PieceType::BISHOP { old(position).bb ^ target_square_board } else { old(position).bb },
                bq: if promotion_piece == PieceType::QUEEN { old(position).bq ^ target_square_board } else { old(position).bq },
                ..*old(position)
            }),
    {
        if promotion_piece != PieceType::NONE {
            position.bp = position.bp ^ target_square_board;
            match promotion_piece {
                PieceType::KNIGHT => position.bn = position.bn ^ target_square_board,
                PieceType::ROOK => position.br = position.br ^ target_square_board,
                PieceType::BISHOP => position.bb = position.bb ^ target_square_board,
                PieceType::QUEEN => position.bq = position.bq ^ target_square_board,
                _ => {},
            }
        }
    }

    /// Removes a piece on `tb` from `b`: `b` toggled at `tb` when they share a square.
    fn remove_captured(b: u64, tb: u64) -> (r: u64)
        ensures
            r == (if b & tb > 0 { b ^ tb } else { b }),
    {
        proof {
            lemma_mask_identities();
        }
        b ^ (PositionHelper::bool_to_bitboard((b & tb) > 0) & tb)
    }

    fn capture_black(position: &mut Position, target_square_board: u64)
        ensures
            *final(position) == (Position {
                bp: if old(position).bp & target_square_board > 0 { old(position).bp ^ target_square_board } else { old(position).bp },
                bn: if old(position).bn & target_square_board > 0 { old(position).bn ^ target_square_board } else { old(position).bn },
                bb: if old(position).bb & target_square_board > 0 { old(position).bb ^ target_square_board } else { old(position).bb },
                br: if old(position).br & target_square_board > 0 { old(position).br ^ target_square_board } else { old(position).br },
                bq: if old(position).bq & target_square_board > 0 { old(position).bq ^ target_square_board } else { old(position).bq },
                ..*old(position)
            }),
    {
        position.bp = MoveMaker::remove_captured(position.bp, target_square_board);
        position.bn = MoveMaker::remove_captured(position.bn, target_square_board);
        position.bb = MoveMaker::remove_captured(position.bb, target_square_board);
        position.br = MoveMaker::remove_captured(position.br, target_square_board);
        position.bq = MoveMaker::remove_captured(position.bq, target_square_board);
    }

    fn capture_white(position: &mut Position, target_square_board: u64)
        ensures
            *final(position) == (Position {
                wp: if old(position).wp & target_square_board > 0 { old(position).wp ^ target_square_board } else { old(position).wp },
                wn: if old(position).wn & target_square_board > 0 { old(position).wn ^ target_square_board } else { old(position).wn },
                wb: if old(position).wb & target_square_board > 0 { old(position).wb ^ target_square_board } else { old(position).wb },
                wr: if old(position).wr & target_square_board > 0 { old(position).wr ^ target_square_board } else { old(position).wr },
                wq: if old(position).wq & target_square_board > 0 { old(position).wq ^ target_square_board } else { old(position).wq },
                ..*old(position)
            }),
    {
        position.wp = MoveMaker::remove_captured(position.wp, target_square_board);
        position.wn = MoveMaker::remove_captured(position.wn, target_square_board);
        position.wb = MoveMaker::remove_captured(position.wb, target_square_board);
        position.wr = MoveMaker::remove_captured(position.wr, target_square_board);
        position.wq = MoveMaker::remove_captured(position.wq, target_square_board);
    }

    /// Plays a move on the position, saving the previous state first when asked to.
    #[verifier::rlimit(60)]
    pub fn make_move(&mut self, position: &mut Position, game_move: &GameMove, save_existing_state: bool)
        requires
            make_move_ok(*old(position), *game_move),
        ensures
            *final(position) == made_position(*old(position), *game_move, final(position).pin_ray_masks),
            no_pins(final(position).pin_ray_masks),
            save_existing_state ==> *final(self) == MoveMaker::saved_from(*old(position)),
            !save_existing_state ==> *final(self) == *old(self),
    {
        let ghost p = *position;
        let ghost m = *game_move;
        let is_pawn_move = game_move.piece == PieceType::PAWN;
        let (target_square_board, movement_board) = MoveMaker::calc_make_move_common_objects(
            position.white_to_move,
            is_pawn_move,
            position.en_passant_sq,
            game_move,
        );
        let movement_sq_count: u8 = if game_move.target_square >= game_move.source_square {
            game_move.target_square - game_move.source_square
        } else {
            game_move.source_square - game_move.target_square
        };
        let src: u8 = game_move.source_square;
        let tgt: u8 = game_move.target_square;
        proof {
            assert(((src + tgt) as u8) >> 1u8 == (src + tgt) / 2) by (bit_vector)
                requires
                    src < 64,
                    tgt < 64,
            ;
        }
        let center_movement_sq_board: u64 = 1u64 << (((src + tgt) >> 1) as u64);
        if save_existing_state {
            self.save_position_state(position);
        }
        // Any movement either from a corner square or to a corner square removes castling rights at that location
        let remove_castling_rights_board: u64 = CORNERS & movement_board;
        position.castling_rights = position.castling_rights & !(remove_castling_rights_board >> 1
            | remove_castling_rights_board << 2);
        let castle_rook: u64 = PositionHelper::bool_to_bitboard(movement_sq_count == 2) & (
        center_movement_sq_board | ((target_square_board << 1 | target_square_board >> 2)
            & CORNERS));
        proof {
            lemma_mask_select(center_movement_sq_board | ((target_square_board << 1u64
                | target_square_board >> 2u64) & CORNERS));
        }
        proof {
            lemma_mask_identities();
            assert(castle_rook == if square_distance(m) == 2 {
                castle_rook_board(m, captured_square_board(p, m))
            } else {
                0
            });
            assert(target_square_board == captured_square_board(p, m));
            assert(movement_board == movement_bb(m));
            assert(position.castling_rights == p.castling_rights & !((CORNERS & movement_bb(m)) >> 1u64
                | (CORNERS & movement_bb(m)) << 2u64));
        }
        if position.white_to_move {
            MoveMaker::move_white_piece(position, game_move.piece, movement_board, castle_rook);
            MoveMaker::promote_white(position, game_move.promotion_piece, target_square_board);
            MoveMaker::capture_black(position, target_square_board);
            proof {
                assert(position.wp == mover_board(p.wp, PieceType::PAWN, p, m));
                assert(position.wn == mover_board(p.wn, PieceType::KNIGHT, p, m));
                assert(position.wb == mover_board(p.wb, PieceType::BISHOP, p, m));
                assert(position.wr == mover_board(p.wr, PieceType::ROOK, p, m));
                assert(position.wq == mover_board(p.wq, PieceType::QUEEN, p, m));
                assert(position.wk == mover_board(p.wk, PieceType::KING, p, m));
                assert(position.bp == captured_board(p.bp, p, m));
                assert(position.castling_rights == castling_after(p, m));
            }
        } else {
            MoveMaker::move_black_piece(position, game_move.piece, movement_board, castle_rook);
            MoveMaker::promote_black(position, game_move.promotion_piece, target_square_board);
            MoveMaker::capture_white(position, target_square_board);
            position.move_number = position.move_number + 1;
            proof {
                assert(position.bp == mover_board(p.bp, PieceType::PAWN, p, m));
                assert(position.bn == mover_board(p.bn, PieceType::KNIGHT, p, m));
                assert(position.bb == mover_board(p.bb, PieceType::BISHOP, p, m));
                assert(position.br == mover_board(p.br, PieceType::ROOK, p, m));
                assert(position.bq == mover_board(p.bq, PieceType::QUEEN, p, m));
                assert(position.bk == mover_board(p.bk, PieceType::KING, p, m));
                assert(position.castling_rights == castling_after(p, m));
            }
        }
        proof {
            lemma_mask_select(target_square_board);
            lemma_mask_select(center_movement_sq_board);
        }
        position.en_passant_sq = PositionHelper::bool_to_bitboard(
            is_pawn_move && movement_sq_count == 16,
        ) & center_movement_sq_board;
        let not_fifty_move: u8 = if is_pawn_move || game_move.is_capture {
            1
        } else {
            0
        };
        let incremented: u8 = position.fifty_move_count + 1;
        proof {
            assert((1 - not_fifty_move) * incremented == if not_fifty_move == 1 {
                0
            } else {
                incremented as int
            }) by (nonlinear_arith)
                requires
                    not_fifty_move == 0 || not_fifty_move == 1,
            ;
        }
        position.fifty_move_count = (1 - not_fifty_move) * incremented;
        position.white_to_move = !position.white_to_move;
        position.king_in_check = false;
        position.king_in_double_check = false;
        position.is_stalemate = false;
        position.is_checkmate = false;
        position.pin_ray_masks = [u64::MAX; 64];
        position.check_ray_mask = u64::MAX;
        proof {
            lemma_mask_identities();
        }
        position.update_occupancy();
    }

    /// Takes back a move made with this saved state.
    pub fn unmake_move(&self, position: &mut Position, _game_move: &GameMove)
        requires
            old(position).white_to_move ==> old(position).move_number >= 1,
        ensures
            *final(position) == self.unmade_position(*old(position)),
    {
        // Do this first so that the white vs. black logic below aligns with that above
        position.white_to_move = !position.white_to_move;
        position.wp = self.old_wp;
        position.wn = self.old_wn;
        position.wb = self.old_wb;
        position.wr = self.old_wr;
        position.wq = self.old_wq;
        position.wk = self.old_wk;
        position.bp = self.old_bp;
        position.bn = self.old_bn;
        position.bb = self.old_bb;
        position.br = self.old_br;
        position.bq = self.old_bq;
        position.bk = self.old_bk;
        position.en_passant_sq = self.old_en_passant_sq;
        position.castling_rights = self.old_castling_rights;
        if !position.white_to_move {
            position.move_number = position.move_number - 1;
        }
        position.fifty_move_count = self.old_fifty_move_count;
        position.king_in_check = self.old_king_in_check;
        position.king_in_double_check = self.old_king_in_double_check;
        position.is_stalemate = self.old_is_stalemate;
        position.is_checkmate = self.old_is_checkmate;
        position.pin_ray_masks = self.old_pin_ray_masks;
        position.check_ray_mask = self.old_check_ray_mask;
        position.update_occupancy();
    }
}

/// Taking a move back with the state saved when it was made gives back the position the move
/// was made in with its occupancy recomputed, whatever pin masks the moved position was given.
pub proof fn lemma_unmake_restores(p: Position, m: GameMove, masks: [u64; 64])
    requires
        make_move_ok(p, m),
    ensures
        made_position(p, m, masks).white_to_move ==> made_position(p, m, masks).move_number >= 1,
        MoveMaker::saved_from(p).unmade_position(made_position(p, m, masks)) == p.with_occupancy(),
{
}

/// Taking a move back with the state saved when it was made gives back the position the
/// move was made in, whatever pin masks the moved position was given.
pub proof fn lemma_unmake_after_make(p: Position, m: GameMove, masks: [u64; 64])
    requires
        p.occupancy_consistent(),
        make_move_ok(p, m),
    ensures
        made_position(p, m, masks).white_to_move ==> made_position(p, m, masks).move_number >= 1,
        MoveMaker::saved_from(p).unmade_position(made_position(p, m, masks)) == p,
{
    let q = made_position(p, m, masks);
    let r = MoveMaker::saved_from(p).unmade_position(q);
    assert(r.white_to_move == p.white_to_move);
    assert(r.move_number == p.move_number);
    assert(r == p);
}

/// Making a move hands the turn to the other side, and leaves the occupancy fields agreeing
/// with the pieces.
pub proof fn lemma_make_move_switches_side(p: Position, m: GameMove, masks: [u64; 64])
    ensures
        made_position(p, m, masks).white_to_move == !p.white_to_move,
        made_position(p, m, masks).occupancy_consistent(),
{
}

/// The castling right squares c1, g1, c8 and g8.
pub open spec fn castling_squares() -> u64 {
    0x4400000000000044u64
}

/// The castling rights a move takes away: the right next to a rook corner that the move leaves
/// or lands on (c1 for a1, g1 for h1, c8 for a8, g8 for h8), and both rights of the side
/// whose king moves.
pub open spec fn rights_lost(p: Position, m: GameMove) -> u64 {
    let s = m.source_square;
    let t = m.target_square;
    (if s == 0 || t == 0 { 4u64 } else { 0u64 }) | (if s == 7 || t == 7 { 64u64 } else { 0u64 }) | (
    if s == 56 || t == 56 { 0x0400000000000000u64 } else { 0u64 }) | (if s == 63 || t == 63 {
        0x4000000000000000u64
    } else {
        0u64
    }) | (if m.piece == PieceType::KING {
        if p.white_to_move { RANK_1 } else { RANK_8 }
    } else {
        0u64
    })
}

proof fn lemma_rights_bits(r: u64, s: u64, t: u64, k: u64)
    by (bit_vector)
    requires
        s < 64,
        t < 64,
        r & !0x4400000000000044u64 == 0u64,
    ensures
        (r & !(((0x8100000000000081u64 & ((1u64 << s) | (1u64 << t))) >> 1u64) | ((0x8100000000000081u64 & ((
        1u64 << s) | (1u64 << t))) << 2u64))) & !k == r & !((((if s == 0 || t == 0 { 4u64 } else { 0u64 }) | (
        if s == 7 || t == 7 { 64u64 } else { 0u64 })) | (if s == 56 || t == 56 { 0x0400000000000000u64 } else {
            0u64
        })) | (if s == 63 || t == 63 { 0x4000000000000000u64 } else { 0u64 }) | k),
        (r & !(((0x8100000000000081u64 & ((1u64 << s) | (1u64 << t))) >> 1u64) | ((0x8100000000000081u64 & ((
        1u64 << s) | (1u64 << t))) << 2u64))) == r & !((((if s == 0 || t == 0 { 4u64 } else { 0u64 }) | (
        if s == 7 || t == 7 { 64u64 } else { 0u64 })) | (if s == 56 || t == 56 { 0x0400000000000000u64 } else {
            0u64
        })) | (if s == 63 || t == 63 { 0x4000000000000000u64 } else { 0u64 }) | 0u64),
{
}

/// Castling rights held only on c1, g1, c8 and g8 lose exactly what `rights_lost` names: the
/// right beside a rook corner the move leaves or lands on, and the rights of a side whose king
/// moves.
pub proof fn lemma_make_move_castling_rights(p: Position, m: GameMove, masks: [u64; 64])
    requires
        m.source_square < 64,
        m.target_square < 64,
        p.castling_rights & !castling_squares() == 0,
    ensures
        made_position(p, m, masks).castling_rights == p.castling_rights & !rights_lost(p, m),
{
    let k = if m.piece == PieceType::KING {
        if p.white_to_move { RANK_1 } else { RANK_8 }
    } else {
        0u64
    };
    lemma_rights_bits(p.castling_rights, m.source_square as u64, m.target_square as u64, k);
}

/// Making a move sets the en passant square behind a pawn's double step (none otherwise),
/// resets the fifty-move count on a pawn move or a capture and counts it up otherwise, hands
/// the turn over (counting a move after black's), recomputes the occupancy, clears the check
/// and end-of-game flags and the check mask, and takes the pin masks it is given.
pub proof fn lemma_make_move_counters(p: Position, m: GameMove, masks: [u64; 64])
    requires
        make_move_ok(p, m),
    ensures
        made_position(p, m, masks).en_passant_sq == (if m.piece == PieceType::PAWN && square_distance(m) == 16 {
            sq_bb(((m.source_square + m.target_square) / 2) as u64)
        } else {
            0u64
        }),
        made_position(p, m, masks).fifty_move_count == (if m.piece == PieceType::PAWN || m.is_capture {
            0
        } else {
            p.fifty_move_count + 1
        }),
        made_position(p, m, masks).white_to_move == !p.white_to_move,
        made_position(p, m, masks).move_number == p.move_number + (if p.white_to_move { 0int } else { 1int }),
        made_position(p, m, masks).occupancy_consistent(),
        !made_position(p, m, masks).king_in_check,
        !made_position(p, m, masks).king_in_double_check,
        !made_position(p, m, masks).is_stalemate,
        !made_position(p, m, masks).is_checkmate,
        made_position(p, m, masks).check_ray_mask == u64::MAX,
        made_position(p, m, masks).pin_ray_masks == masks,
{
}

proof fn lemma_mask_select(y: u64)
    by (bit_vector)
    ensures
        u64::MAX & y == y,
        0u64 & y == 0,
        y ^ 0u64 == y,
        y | 0u64 == y,
        0u64 | y == y,
{
}

proof fn lemma_mask_identities()
    by (bit_vector)
    ensures
        forall|y: u64| #![trigger y ^ 0u64] y ^ 0u64 == y,
        forall|y: u64| #![trigger u64::MAX & y] u64::MAX & y == y,
        forall|y: u64| #![trigger 0u64 & y] 0u64 & y == 0,
{
}

impl Default for MoveMaker {
    fn default() -> (m: MoveMaker)
        ensures
            m.old_wp == 0 && m.old_wn == 0 && m.old_wb == 0 && m.old_wr == 0 && m.old_wq == 0
                && m.old_wk == 0,
            m.old_bp == 0 && m.old_bn == 0 && m.old_bb == 0 && m.old_br == 0 && m.old_bq == 0
                && m.old_bk == 0,
            m.old_en_passant_sq == 0 && m.old_castling_rights == 0 && m.old_fifty_move_count == 0,
            !m.old_king_in_check && !m.old_king_in_double_check && !m.old_is_stalemate
                && !m.old_is_checkmate,
            forall|i: int| 0 <= i < 64 ==> m.old_pin_ray_masks[i] == 0,
            m.old_check_ray_mask == 0,
    {
        MoveMaker {
            old_wp: 0,
            old_wn: 0,
            old_wb: 0,
            old_wr: 0,
            old_wq: 0,
            old_wk: 0,
            old_bp: 0,
            old_bn: 0,
            old_bb: 0,
            old_br: 0,
            old_bq: 0,
            old_bk: 0,
            old_en_passant_sq: 0,
            old_castling_rights: 0,
            old_fifty_move_count: 0,
            old_king_in_check: false,
            old_king_in_double_check: false,
            old_is_stalemate: false,
            old_is_checkmate: false,
            old_pin_ray_masks: [0u64; 64],
            old_check_ray_mask: 0,
        }
    }
}

} // verus!
