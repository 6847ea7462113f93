use vstd::prelude::*;

verus! {

/// A chess position: one bitboard per piece kind and colour, plus game state.
#[derive(Clone, Copy)]
pub struct Position {
    // Bitboards
    pub wp: u64,
    pub wn: u64,
    pub wb: u64,
    pub wr: u64,
    pub wq: u64,
    pub wk: u64,
    pub bp: u64,
    pub bn: u64,
    pub bb: u64,
    pub br: u64,
    pub bq: u64,
    pub bk: u64,
    pub en_passant_sq: u64,
    pub castling_rights: u64,
    // Pin rays limit piece movement (but not the squares the piece is attacking).
    // The check ray limits both, since a piece cannot attack a square outside
    // the checking ray if its king is in check.
    pub pin_ray_masks: [u64; 64],
    pub check_ray_mask: u64,
    // Squares occupied by either side
    pub white_occupancy: u64,
    pub black_occupancy: u64,
    pub all_occupancy: u64,
    pub non_occupancy: u64,
    pub friendly_occupancy: u64,
    pub enemy_occupancy: u64,
    pub white_to_move: bool,
    pub king_in_check: bool,
    pub king_in_double_check: bool,
    pub is_stalemate: bool,
    pub is_checkmate: bool,
    pub fifty_move_count: u8,
    pub move_number: u16,
}

/// The pin masks of a square-indexed sequence, as an array.
pub open spec fn pins_array(s: Seq<u64>) -> [u64; 64] {
    choose|a: [u64; 64]| a@ == s
}

/// Pin masks that restrict no square.
pub open spec fn open_pins() -> [u64; 64] {
    pins_array(Seq::new(64, |i: int| u64::MAX))
}

/// The empty position: no pieces, white to move, no pins and no check.
pub open spec fn empty_position() -> Position {
    Position {
        wp: 0,
        wn: 0,
        wb: 0,
        wr: 0,
        wq: 0,
        wk: 0,
        bp: 0,
        bn: 0,
        bb: 0,
        br: 0,
        bq: 0,
        bk: 0,
        pin_ray_masks: open_pins(),
        check_ray_mask: u64::MAX,
        white_occupancy: 0,
        black_occupancy: 0,
        all_occupancy: 0,
        non_occupancy: 0,
        friendly_occupancy: 0,
        enemy_occupancy: 0,
        en_passant_sq: 0,
        castling_rights: 0,
        white_to_move: true,
        king_in_check: false,
        king_in_double_check: false,
        is_stalemate: false,
        is_checkmate: false,
        fifty_move_count: 0,
        move_number: 0,
    }
}

impl Position {
    /// Squares holding a white piece.
    pub open spec fn white_pieces(self) -> u64 {
        self.wp | self.wn | self.wb | self.wr | self.wq | self.wk
    }

    /// Squares holding a black piece.
    pub open spec fn black_pieces(self) -> u64 {
        self.bp | self.bn | self.bb | self.br | self.bq | self.bk
    }

    /// The occupancy fields agree with the piece bitboards and the side to move.
    pub open spec fn occupancy_consistent(self) -> bool {
        &&& self.white_occupancy == self.white_pieces()
        &&& self.black_occupancy == self.black_pieces()
        &&& self.friendly_occupancy == (if self.white_to_move {
            self.white_pieces()
        } else {
            self.black_pieces()
        })
        &&& self.enemy_occupancy == (if self.white_to_move {
            self.black_pieces()
        } else {
            self.white_pieces()
        })
        &&& self.all_occupancy == self.white_pieces() | self.black_pieces()
        &&& self.non_occupancy == !(self.white_pieces() | self.black_pieces())
    }

    /// The position with its occupancy fields recomputed from the piece bitboards.
    pub open spec fn with_occupancy(self) -> Position {
        Position {
            white_occupancy: self.white_pieces(),
            black_occupancy: self.black_pieces(),
            friendly_occupancy: if self.white_to_move {
                self.white_pieces()
            } else {
                self.black_pieces()
            },
            enemy_occupancy: if self.white_to_move {
                self.black_pieces()
            } else {
                self.white_pieces()
            },
            all_occupancy: self.white_pieces() | self.black_pieces(),
            non_occupancy: !(self.white_pieces() | self.black_pieces()),
            ..self
        }
    }

    /// Recomputes the occupancy bitboards from the piece bitboards and the side to move.
    pub fn update_occupancy(&mut self)
        ensures
            *final(self) == old(self).with_occupancy(),
            final(self).occupancy_consistent(),
    {
        self.white_occupancy = self.wp | self.wn | self.wb | self.wr | self.wq | self.wk;
        self.black_occupancy = self.bp | self.bn | self.bb | self.br | self.bq | self.bk;
        if self.white_to_move {
            self.friendly_occupancy = self.white_occupancy;
            self.enemy_occupancy = self.black_occupancy;
        } else {
            self.friendly_occupancy = self.black_occupancy;
            self.enemy_occupancy = self.white_occupancy;
        }
        self.all_occupancy = self.white_occupancy | self.black_occupancy;
        self.non_occupancy = !self.all_occupancy;
    }
}

impl Default for Position {
    fn default() -> (p: Position)
        ensures
            p == empty_position(),
    {
        let p = Position {
            wp: 0,
            wn: 0,
            wb: 0,
            wr: 0,
            wq: 0,
            wk: 0,
            bp: 0,
            bn: 0,
            bb: 0,
            br: 0,
            bq: 0,
            bk: 0,
            pin_ray_masks: [u64::MAX; 64],
            check_ray_mask: u64::MAX,
            white_occupancy: 0,
            black_occupancy: 0,
            all_occupancy: 0,
            non_occupancy: 0,
            friendly_occupancy: 0,
            enemy_occupancy: 0,
            en_passant_sq: 0,
            castling_rights: 0,
            white_to_move: true,
            king_in_check: false,
            king_in_double_check: false,
            is_stalemate: false,
            is_checkmate: false,
            fifty_move_count: 0,
            move_number: 0,
        };
        proof {
            let c = open_pins();
            assert(exists|a: [u64; 64]| a@ == Seq::new(64, |i: int| u64::MAX)) by {
                assert(p.pin_ray_masks@ =~= Seq::new(64, |i: int| u64::MAX));
            }
            assert(c =~= p.pin_ray_masks);
        }
        p
    }
}

} // verus!
