use vstd::prelude::*;
use crate::bitboard::{bit, swap_bytes, vflip};
use crate::board_integrity::board_of;
use crate::constants::PieceType;
use crate::constants::{C_FILE, G_FILE, RANK_1, RANK_8, NN_MOVE_HISTORY_PER_POS};
use crate::game_move::GameMove;
use crate::game_move_list::GameMoveList;
use crate::move_encoding::{movement_index, movement_plane_index};
use crate::position::Position;

verus! {

/// Converts positions and moves into what the network's planes hold: which squares of each
/// piece plane are set, the game values of the auxiliary planes, and which places of the
/// output planes a move or a list of moves sets.
pub struct PositionConverter {}

/// The game values of the auxiliary planes, "P1" being the side to move and "P2" the other.
#[derive(Clone, Copy, Debug, PartialEq, Eq, Structural)]
pub struct AuxPlanes {
    /// Black is to move.
    pub black_to_move: bool,
    /// The move number, at most 255.
    pub move_number: u8,
    /// The half moves since the last capture or pawn move.
    pub fifty_move_count: u8,
    /// The side to move may still castle king side.
    pub p1_kingside_castling: bool,
    /// The side to move may still castle queen side.
    pub p1_queenside_castling: bool,
    /// The other side may still castle king side.
    pub p2_kingside_castling: bool,
    /// The other side may still castle queen side.
    pub p2_queenside_castling: bool,
}

/// A board as the network sees it: flipped vertically when black is to move.
pub open spec fn seen_board(b: u64, flip_for_black: bool) -> u64 {
    if flip_for_black {
        vflip(b)
    } else {
        b
    }
}

/// The piece boards in plane order: pawns, knights, bishops, rooks, queens and king of the
/// side the network plays (white, or black when flipped), then those of the other side; each
/// board as the network sees it.
pub open spec fn piece_plane_boards(p: Position, flip_for_black: bool) -> Seq<u64> {
    let boards = if !flip_for_black {
        seq![p.wp, p.wn, p.wb, p.wr, p.wq, p.wk, p.bp, p.bn, p.bb, p.br, p.bq, p.bk]
    } else {
        seq![p.bp, p.bn, p.bb, p.br, p.bq, p.bk, p.wp, p.wn, p.wb, p.wr, p.wq, p.wk]
    };
    boards.map_values(|b: u64| seen_board(b, flip_for_black))
}

/// The castling squares of the side to move (on its back rank) and of the other side.
pub open spec fn castling_sides(p: Position) -> (u64, u64) {
    if p.white_to_move {
        (p.castling_rights & RANK_1, p.castling_rights & RANK_8)
    } else {
        (p.castling_rights & RANK_8, p.castling_rights & RANK_1)
    }
}

/// The game values of the auxiliary planes of a position.
pub open spec fn aux_planes(p: Position) -> AuxPlanes {
    let (p1, p2) = castling_sides(p);
    AuxPlanes {
        black_to_move: !p.white_to_move,
        move_number: if p.move_number < 255 {
            p.move_number as u8
        } else {
            255u8
        },
        fifty_move_count: p.fifty_move_count,
        p1_kingside_castling: p1 & G_FILE > 0,
        p1_queenside_castling: p1 & C_FILE > 0,
        p2_kingside_castling: p2 & G_FILE > 0,
        p2_queenside_castling: p2 & C_FILE > 0,
    }
}

/// Both squares of every move of the list are on the board.
pub open spec fn moves_on_board(l: GameMoveList) -> bool {
    forall|i: int|
        0 <= i < l.list_len ==> (#[trigger] l.moves()[i]).source_square < 64 && l.moves()[i].target_square
            < 64
}

impl PositionConverter {
    /// The squares of a piece plane that are set: the pieces' board, flipped vertically for
    /// black.
    pub fn encode_piece_positions(piece_pos: u64, flip_for_black: bool) -> (r: u64)
        ensures
            r == seen_board(piece_pos, flip_for_black),
    {
        if flip_for_black {
            swap_bytes(piece_pos)
        } else {
            piece_pos
        }
    }

    /// The set squares of the twelve piece planes: the pieces of the side the network plays
    /// first, each board flipped vertically for black.
    pub fn encode_piece_planes_for_nn(position: &Position, flip_for_black: bool) -> (r: [u64; 12])
        ensures
            r@ == piece_plane_boards(*position, flip_for_black),
    {
        // The network sees the board from the side to move, so black's pieces come first
        // when the board is flipped for black
        let piece_bitboards: [u64; 12] = if !flip_for_black {
            [
                position.wp,
                position.wn,
                position.wb,
                position.wr,
                position.wq,
                position.wk,
                position.bp,
                position.bn,
                position.bb,
                position.br,
                position.bq,
                position.bk,
            ]
        } else {
            [
                position.bp,
                position.bn,
                position.bb,
                position.br,
                position.bq,
                position.bk,
                position.wp,
                position.wn,
                position.wb,
                position.wr,
                position.wq,
                position.wk,
            ]
        };
        let mut planes: [u64; 12] = [0u64; 12];
        let mut i: usize = 0;
        while i < 12
            invariant
                i <= 12,
                forall|k: int|
                    0 <= k < i ==> planes@[k] == seen_board(#[trigger] piece_bitboards@[k], flip_for_black),
            decreases 12 - i,
        {
            planes[i] = PositionConverter::encode_piece_positions(piece_bitboards[i], flip_for_black);
            i = i + 1;
        }
        proof {
            assert(planes@ =~= piece_plane_boards(*position, flip_for_black));
        }
        planes
    }

    /// The game values of the auxiliary planes: side to move, move number (at most 255),
    /// fifty-move count, and the castling rights of the side to move and of the other side.
    pub fn encode_aux_planes_for_nn(position: &Position) -> (r: AuxPlanes)
        ensures
            r == aux_planes(*position),
    {
        // The castling squares of the side to move are on its own back rank
        let (partial_castling_rights_val_p1, partial_castling_rights_val_p2) = if position.white_to_move {
            (position.castling_rights & RANK_1, position.castling_rights & RANK_8)
        } else {
            (position.castling_rights & RANK_8, position.castling_rights & RANK_1)
        };
        AuxPlanes {
            black_to_move: !position.white_to_move,
            move_number: if position.move_number < 255 {
                position.move_number as u8
            } else {
                255u8
            },
            fifty_move_count: position.fifty_move_count,
            p1_kingside_castling: partial_castling_rights_val_p1 & G_FILE > 0,
            p1_queenside_castling: partial_castling_rights_val_p1 & C_FILE > 0,
            p2_kingside_castling: partial_castling_rights_val_p2 & G_FILE > 0,
            p2_queenside_castling: partial_castling_rights_val_p2 & C_FILE > 0,
        }
    }

    /// The places of the output planes set by the moves of the list, in list order: the mask
    /// of the moves the network may choose.
    pub fn encode_movement_output_planes_for_nn(possible_moves: &GameMoveList, flip_for_black: bool) -> (r: Vec<usize>)
        requires
            possible_moves.wf(),
            flip_for_black ==> moves_on_board(*possible_moves),
        ensures
            r@.len() == possible_moves.list_len,
            forall|i: int|
                0 <= i < possible_moves.list_len ==> r@[i] == movement_index(
                    #[trigger] possible_moves.moves()[i],
                    flip_for_black,
                ),
    {
        let mut places: Vec<usize> = Vec::new();
        let mut i: usize = 0;
        while i < possible_moves.list_len
            invariant
                possible_moves.wf(),
                flip_for_black ==> moves_on_board(*possible_moves),
                i <= possible_moves.list_len,
                places@.len() == i,
                forall|k: int|
                    0 <= k < i ==> places@[k] == movement_index(
                        #[trigger] possible_moves.moves()[k],
                        flip_for_black,
                    ),
            decreases possible_moves.list_len - i,
        {
            let game_move = &possible_moves.move_list[i];
            proof {
                assert(possible_moves.moves()[i as int] == *game_move);
            }
            places.push(movement_plane_index(game_move, flip_for_black));
            i = i + 1;
        }
        places
    }

    /// The place of the output planes that the move played sets: the target the network is
    /// trained towards, flipped when black is to move.
    pub fn convert_target_move_for_nn(target_move: &GameMove, position: &Position) -> (r: usize)
        requires
            !position.white_to_move ==> target_move.source_square < 64 && target_move.target_square < 64,
        ensures
            r == movement_index(*target_move, !position.white_to_move),
    {
        movement_plane_index(target_move, !position.white_to_move)
    }
}

/// The piece planes of the last positions of a game, newest first, as the network sees them
/// from white's side and from black's side. Slots of positions not yet played are empty.
pub struct PlaneHistory {
    pub white_view: Vec<[u64; 12]>,
    pub black_view: Vec<[u64; 12]>,
}

/// Twelve empty piece planes.
pub open spec fn empty_planes() -> Seq<u64> {
    Seq::new(12, |i: int| 0u64)
}

/// The history after recording a position: its planes first, then the older ones, of which the
/// oldest is dropped.
pub open spec fn recorded(old: Seq<[u64; 12]>, planes: Seq<u64>, i: int) -> Seq<u64> {
    if i == 0 { planes } else { old[i - 1]@ }
}

impl PlaneHistory {
    /// Both views hold one slot per position the network sees.
    pub open spec fn well_formed(&self) -> bool {
        &&& self.white_view.len() == NN_MOVE_HISTORY_PER_POS
        &&& self.black_view.len() == NN_MOVE_HISTORY_PER_POS
    }

    /// The history of a new game: every slot empty.
    pub fn new() -> (h: PlaneHistory)
        ensures
            h.well_formed(),
            forall|i: int| 0 <= i < NN_MOVE_HISTORY_PER_POS ==> #[trigger] h.white_view@[i]@ == empty_planes(),
            forall|i: int| 0 <= i < NN_MOVE_HISTORY_PER_POS ==> #[trigger] h.black_view@[i]@ == empty_planes(),
    {
        let mut white_view: Vec<[u64; 12]> = Vec::new();
        let mut black_view: Vec<[u64; 12]> = Vec::new();
        let mut n: usize = 0;
        while n < NN_MOVE_HISTORY_PER_POS
            invariant
                n <= NN_MOVE_HISTORY_PER_POS,
                white_view.len() == n,
                black_view.len() == n,
                forall|i: int| 0 <= i < n ==> #[trigger] white_view@[i]@ == empty_planes(),
                forall|i: int| 0 <= i < n ==> #[trigger] black_view@[i]@ == empty_planes(),
            decreases NN_MOVE_HISTORY_PER_POS - n,
        {
            let empty: [u64; 12] = [0u64; 12];
            assert(empty@ =~= empty_planes());
            white_view.push(empty);
            black_view.push(empty);
            n = n + 1;
        }
        PlaneHistory { white_view, black_view }
    }

    /// Records a position: each older position moves one slot back, the oldest is dropped, and
    /// the planes of the position go first, unflipped for white's view and flipped for black's.
    pub fn record(&mut self, position: &Position)
        requires
            old(self).well_formed(),
        ensures
            final(self).well_formed(),
            forall|i: int| 0 <= i < NN_MOVE_HISTORY_PER_POS ==> #[trigger] final(self).white_view@[i]@
                == recorded(old(self).white_view@, piece_plane_boards(*position, false), i),
            forall|i: int| 0 <= i < NN_MOVE_HISTORY_PER_POS ==> #[trigger] final(self).black_view@[i]@
                == recorded(old(self).black_view@, piece_plane_boards(*position, true), i),
    {
        let mut white_view: Vec<[u64; 12]> = Vec::new();
        let mut black_view: Vec<[u64; 12]> = Vec::new();
        white_view.push(PositionConverter::encode_piece_planes_for_nn(position, false));
        black_view.push(PositionConverter::encode_piece_planes_for_nn(position, true));
        let mut n: usize = 1;
        while n < NN_MOVE_HISTORY_PER_POS
            invariant
                1 <= n <= NN_MOVE_HISTORY_PER_POS,
                self.white_view.len() == NN_MOVE_HISTORY_PER_POS,
                self.black_view.len() == NN_MOVE_HISTORY_PER_POS,
                white_view.len() == n,
                black_view.len() == n,
                forall|i: int| 0 <= i < n ==> #[trigger] white_view@[i]@ == recorded(self.white_view@, piece_plane_boards(*position, false), i),
                forall|i: int| 0 <= i < n ==> #[trigger] black_view@[i]@ == recorded(self.black_view@, piece_plane_boards(*position, true), i),
            decreases NN_MOVE_HISTORY_PER_POS - n,
        {
            white_view.push(self.white_view[n - 1]);
            black_view.push(self.black_view[n - 1]);
            n = n + 1;
        }
        self.white_view = white_view;
        self.black_view = black_view;
    }
}

proof fn lemma_castling_right_bits(r: u64)
    by (bit_vector)
    ensures
        ((r & 0xffu64) & 0x4040404040404040u64 > 0) == ((r >> 6u64) & 1u64 == 1u64),
        ((r & 0xffu64) & 0x0404040404040404u64 > 0) == ((r >> 2u64) & 1u64 == 1u64),
        ((r & 0xff00000000000000u64) & 0x4040404040404040u64 > 0) == ((r >> 62u64) & 1u64 == 1u64),
        ((r & 0xff00000000000000u64) & 0x0404040404040404u64 > 0) == ((r >> 58u64) & 1u64 == 1u64),
{
}

/// The castling planes speak of the side to move first: "P1" may castle king side exactly
/// when the castling rights hold g1 (white to move) or g8 (black to move), queen side exactly
/// when they hold c1 or c8; "P2", the other side, by the squares of the other back rank.
pub proof fn lemma_aux_castling_planes(p: Position)
    ensures
        aux_planes(p).p1_kingside_castling == bit(p.castling_rights, if p.white_to_move { 6 } else { 62 }),
        aux_planes(p).p1_queenside_castling == bit(p.castling_rights, if p.white_to_move { 2 } else { 58 }),
        aux_planes(p).p2_kingside_castling == bit(p.castling_rights, if p.white_to_move { 62 } else { 6 }),
        aux_planes(p).p2_queenside_castling == bit(p.castling_rights, if p.white_to_move { 58 } else { 2 }),
        aux_planes(p).black_to_move == !p.white_to_move,
        aux_planes(p).move_number as int == if p.move_number < 255 { p.move_number as int } else { 255 },
        aux_planes(p).fifty_move_count == p.fifty_move_count,
{
    lemma_castling_right_bits(p.castling_rights);
}

/// A board flipped twice is the board itself.
pub proof fn lemma_vflip_twice(b: u64)
    ensures
        vflip(vflip(b)) == b,
{
    assert forall|i: u64| i < 64 implies bit(vflip(vflip(b)), i) == bit(b, i) by {
        crate::attacks::lemma_index_flip(i);
        crate::bitboard::lemma_from_bits(|j: u64| bit(vflip(b), j ^ 56u64), i);
        crate::bitboard::lemma_from_bits(|j: u64| bit(b, j ^ 56u64), i ^ 56u64);
    }
    crate::bitboard::lemma_ext(vflip(vflip(b)), b);
}

/// The position with the colours exchanged and the board turned over: each white piece becomes
/// a black piece on the mirrored square, and each black piece a white one.
pub open spec fn colour_mirrored(p: Position) -> Position {
    Position {
        wp: vflip(p.bp),
        wn: vflip(p.bn),
        wb: vflip(p.bb),
        wr: vflip(p.br),
        wq: vflip(p.bq),
        wk: vflip(p.bk),
        bp: vflip(p.wp),
        bn: vflip(p.wn),
        bb: vflip(p.wb),
        br: vflip(p.wr),
        bq: vflip(p.wq),
        bk: vflip(p.wk),
        white_to_move: !p.white_to_move,
        ..p
    }
}

/// The twelve piece planes are, in order, the pawns, knights, bishops, rooks, queens and king
/// of the side the network plays (white unflipped, black flipped), then those of the other side;
/// and the encoding for white is the encoding for black of the colour-mirrored position, so both
/// sides see their own pieces the same way.
pub proof fn lemma_piece_planes_order(p: Position, flip_for_black: bool)
    ensures
        ({
            let r = piece_plane_boards(p, flip_for_black);
            let me = !flip_for_black;
            &&& r.len() == 12
            &&& r[0] == seen_board(board_of(p, me, PieceType::PAWN), flip_for_black)
            &&& r[1] == seen_board(board_of(p, me, PieceType::KNIGHT), flip_for_black)
            &&& r[2] == seen_board(board_of(p, me, PieceType::BISHOP), flip_for_black)
            &&& r[3] == seen_board(board_of(p, me, PieceType::ROOK), flip_for_black)
            &&& r[4] == seen_board(board_of(p, me, PieceType::QUEEN), flip_for_black)
            &&& r[5] == seen_board(board_of(p, me, PieceType::KING), flip_for_black)
            &&& r[6] == seen_board(board_of(p, !me, PieceType::PAWN), flip_for_black)
            &&& r[7] == seen_board(board_of(p, !me, PieceType::KNIGHT), flip_for_black)
            &&& r[8] == seen_board(board_of(p, !me, PieceType::BISHOP), flip_for_black)
            &&& r[9] == seen_board(board_of(p, !me, PieceType::ROOK), flip_for_black)
            &&& r[10] == seen_board(board_of(p, !me, PieceType::QUEEN), flip_for_black)
            &&& r[11] == seen_board(board_of(p, !me, PieceType::KING), flip_for_black)
        }),
        piece_plane_boards(p, false) == piece_plane_boards(colour_mirrored(p), true),
{
    lemma_vflip_twice(p.wp);
    lemma_vflip_twice(p.wn);
    lemma_vflip_twice(p.wb);
    lemma_vflip_twice(p.wr);
    lemma_vflip_twice(p.wq);
    lemma_vflip_twice(p.wk);
    lemma_vflip_twice(p.bp);
    lemma_vflip_twice(p.bn);
    lemma_vflip_twice(p.bb);
    lemma_vflip_twice(p.br);
    lemma_vflip_twice(p.bq);
    lemma_vflip_twice(p.bk);
    assert(piece_plane_boards(p, false) =~= piece_plane_boards(colour_mirrored(p), true));
}

} // verus!
