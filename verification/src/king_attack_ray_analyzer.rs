use vstd::prelude::*;
use crate::bitboard::{bool_mask, popcount, lsb_index, count_ones, lowest_square};
use crate::position::Position;
use crate::position_helper::PositionHelper;

verus! {

/// What the attacks on a king found: a pin mask per square, the check mask, the number of
/// checking pieces and whether en passant must be disabled.
pub struct KingAttackRayAnalyzer {
    pub pin_ray_masks: [u64; 64],
    pub check_ray_mask: u64,
    pub num_checking_pieces: u8,
    pub disable_en_passant: bool,
}

/// The analysis as plain values: pin masks, check mask, number of checks, en passant disabled.
pub type AnalysisModel = (Seq<u64>, u64, u8, bool);

impl View for KingAttackRayAnalyzer {
    type V = AnalysisModel;

    open spec fn view(&self) -> AnalysisModel {
        (self.pin_ray_masks@, self.check_ray_mask, self.num_checking_pieces, self.disable_en_passant)
    }
}

/// Merging a pin ray: a non-empty pin ray replaces the mask of the square, an empty one keeps it.
pub open spec fn merge_pin(a: AnalysisModel, sq: int, pin_ray: u64) -> AnalysisModel {
    (a.0.update(sq, if pin_ray > 0 { pin_ray } else { a.0[sq] }), a.1, a.2, a.3)
}

/// Merging a check ray: a non-empty check ray replaces the check mask and counts one more check.
pub open spec fn merge_check(a: AnalysisModel, check_ray: u64) -> AnalysisModel {
    (
        a.0,
        if check_ray > 0 { check_ray } else { a.1 },
        if check_ray > 0 { (a.2 + 1) as u8 } else { a.2 },
        a.3,
    )
}

/// No pins, no check, no checking piece, en passant allowed.
pub open spec fn cleared_model(a: AnalysisModel) -> bool {
    &&& a.0.len() == 64
    &&& forall|i: int| 0 <= i < 64 ==> a.0[i] == u64::MAX
    &&& a.1 == u64::MAX
    &&& a.2 == 0
    &&& !a.3
}

/// Pieces of either side on the ray.
pub open spec fn ray_occupancy(p: Position, attack_ray: u64) -> u64 {
    attack_ray & p.all_occupancy
}

/// The ray (minus the king) pins a piece when it holds exactly three pieces, two of them
/// of the side to move (the king and the pinned piece).
pub open spec fn pin_ray_of(p: Position, attack_ray: u64, enemy_king_pos: u64) -> u64 {
    let occ = ray_occupancy(p, attack_ray);
    attack_ray & bool_mask(popcount(occ) == 3 && popcount(occ & p.friendly_occupancy) == 2)
        & !enemy_king_pos
}

/// The square of the pinned piece: the lowest friendly square on the ray other than the king
/// (0 when there is none).
pub open spec fn pinned_square_of(p: Position, attack_ray: u64, enemy_king_pos: u64) -> int {
    let f = ray_occupancy(p, attack_ray) & p.friendly_occupancy & !enemy_king_pos;
    if f == 0 {
        0
    } else {
        lsb_index(f) as int
    }
}

/// A horizontal ray holding four pieces, two of them pawns next to the en passant pawn,
/// would expose the king after an en passant capture.
pub open spec fn disables_en_passant(p: Position, attack_ray: u64, is_horizontal_ray: bool) -> bool {
    let occ = ray_occupancy(p, attack_ray);
    (occ & bool_mask(popcount(occ) == 4) & bool_mask(is_horizontal_ray) & (p.wp | p.bp) & ((
    p.en_passant_sq >> 8u64) | (p.en_passant_sq << 8u64))) > 0
}

/// The ray (minus the king) checks the king when it holds exactly two pieces: attacker and king.
pub open spec fn check_ray_of(p: Position, attack_ray: u64, enemy_king_pos: u64) -> u64 {
    attack_ray & bool_mask(popcount(ray_occupancy(p, attack_ray)) == 2) & !enemy_king_pos
}

/// The analysis after examining one attack ray towards the king.
pub open spec fn analyze_ray(
    a: AnalysisModel,
    p: Position,
    attack_ray: u64,
    is_horizontal_ray: bool,
    enemy_king_pos: u64,
) -> AnalysisModel {
    let a1 = merge_pin(
        a,
        pinned_square_of(p, attack_ray, enemy_king_pos),
        pin_ray_of(p, attack_ray, enemy_king_pos),
    );
    let a2 = (a1.0, a1.1, a1.2, a1.3 || disables_en_passant(p, attack_ray, is_horizontal_ray));
    merge_check(a2, check_ray_of(p, attack_ray, enemy_king_pos))
}

/// Examining one ray adds at most one checking piece.
pub proof fn lemma_analyze_ray_count(
    a: AnalysisModel,
    p: Position,
    attack_ray: u64,
    is_horizontal_ray: bool,
    enemy_king_pos: u64,
)
    requires
        a.2 < 255,
    ensures
        analyze_ray(a, p, attack_ray, is_horizontal_ray, enemy_king_pos).2 <= a.2 + 1,
        analyze_ray(a, p, attack_ray, is_horizontal_ray, enemy_king_pos).2 >= a.2,
{
}

impl KingAttackRayAnalyzer {
    /// Resets to no pins, no check, no checking piece and en passant allowed.
    pub fn clear(&mut self)
        ensures
            cleared_model(final(self)@),
    {
        self.pin_ray_masks = [u64::MAX; 64];
        self.check_ray_mask = u64::MAX;
        self.num_checking_pieces = 0;
        self.disable_en_passant = false;
    }

    /// A non-empty pin ray replaces the pin mask of the square; an empty one keeps it.
    pub fn merge_pin_ray(&mut self, sq_index: usize, pin_ray: u64)
        requires
            sq_index < 64,
        ensures
            final(self)@ == merge_pin(old(self)@, sq_index as int, pin_ray),
    {
        // If a pin is present (i.e. pin_ray > 0), set it directly.  Otherwise
        // retain what is already present
        let non_zero_pin_ray = PositionHelper::bool_to_bitboard(pin_ray > 0);
        proof {
            lemma_select_sum(pin_ray, self.pin_ray_masks[sq_index as int]);
        }
        self.pin_ray_masks[sq_index] = (non_zero_pin_ray & pin_ray) + (!non_zero_pin_ray
            & self.pin_ray_masks[sq_index]);
        proof {
            assert(self@.0 =~= merge_pin(old(self)@, sq_index as int, pin_ray).0);
        }
    }

    /// A non-empty check ray replaces the check mask and counts one more checking piece.
    pub fn merge_check_ray(&mut self, check_ray: u64)
        requires
            check_ray > 0 ==> old(self).num_checking_pieces < 255,
        ensures
            final(self)@ == merge_check(old(self)@, check_ray),
    {
        // If a check is present (i.e. check_ray > 0), set it directly.  Otherwise
        // retain what is already present
        let is_non_zero_check_ray = check_ray > 0;
        let non_zero_check_ray = PositionHelper::bool_to_bitboard(is_non_zero_check_ray);
        proof {
            lemma_select_sum(check_ray, self.check_ray_mask);
        }
        self.check_ray_mask = (non_zero_check_ray & check_ray) + (!non_zero_check_ray
            & self.check_ray_mask);
        if is_non_zero_check_ray {
            self.num_checking_pieces = self.num_checking_pieces + 1;
        }
    }

    /// Examines a ray from an attacker to the king: two pieces on it make a check, three pieces
    /// with two of the side to move make a pin, and a horizontal ray of four pieces through the
    /// en passant pawns disables en passant.
    pub fn analyze_king_attack_ray(
        &mut self,
        position: &Position,
        attack_ray: u64,
        is_horizontal_ray: bool,
        enemy_king_pos: u64,
    )
        requires
            check_ray_of(*position, attack_ray, enemy_king_pos) > 0
                ==> old(self).num_checking_pieces < 255,
        ensures
            final(self)@ == analyze_ray(
                old(self)@,
                *position,
                attack_ray,
                is_horizontal_ray,
                enemy_king_pos,
            ),
    {
        let attack_ray_occupancy = attack_ray & position.all_occupancy;
        let piece_count_along_ray = count_ones(attack_ray_occupancy);
        let attack_ray_friendly_occupancy = attack_ray_occupancy & position.friendly_occupancy;
        let pin_ray = attack_ray & PositionHelper::bool_to_bitboard(
            piece_count_along_ray == 3 && (count_ones(attack_ray_friendly_occupancy) == 2),
        ) & !enemy_king_pos;
        let pinned_piece_sq_ind = lowest_square(attack_ray_friendly_occupancy & !enemy_king_pos);
        proof {
            assert(pinned_piece_sq_ind < 64 ==> pinned_piece_sq_ind & 63u64 == pinned_piece_sq_ind)
                by (bit_vector);
            assert(64u64 & 63u64 == 0u64) by (bit_vector);
        }
        self.merge_pin_ray((pinned_piece_sq_ind & 63) as usize, pin_ray);
        let disable_en_passant_capture = (attack_ray_occupancy & PositionHelper::bool_to_bitboard(
            piece_count_along_ray == 4,
        ) & PositionHelper::bool_to_bitboard(is_horizontal_ray) & (position.wp | position.bp) & (
        position.en_passant_sq >> 8 | position.en_passant_sq << 8)) > 0;
        self.disable_en_passant = self.disable_en_passant || disable_en_passant_capture;
        let check_ray = attack_ray & PositionHelper::bool_to_bitboard(piece_count_along_ray == 2)
            & !enemy_king_pos;
        self.merge_check_ray(check_ray);
    }
}

proof fn lemma_ray_bits(x: u64, m: u64, y: u64, z: u64, f: u64, k: u64)
    by (bit_vector)
    requires
        k < 64,
    ensures
        (x & u64::MAX) & m == x & m,
        (x & 0u64) & m == 0u64,
        (f & !(1u64 << k)) == 0u64 ==> (f == 0u64 || f == (1u64 << k)),
        (1u64 << k) != 0u64,
        (1u64 << k) & (((1u64 << k) - 1u64) as u64) == 0u64,
        (((x & u64::MAX) & u64::MAX) & y) & z == (x & y) & z,
        (((x & 0u64) & m) & y) & z == 0u64,
        (((x & m) & 0u64) & y) & z == 0u64,
{
}

/// A single square counts one.
pub(crate) proof fn lemma_popcount_single(k: u64)
    requires
        k < 64,
    ensures
        popcount(crate::bitboard::sq_bb(k)) == 1,
{
    let b = crate::bitboard::sq_bb(k);
    lemma_ray_bits(0, 0, 0, 0, 0, k);
    assert(crate::bitboard::clear_lsb(b) == 0);
    assert(crate::bitboard::bits_seq(0) =~= Seq::<u64>::empty());
    assert(crate::bitboard::bits_seq(b) == seq![lsb_index(b)].add(crate::bitboard::bits_seq(0)));
}

/// Examining a ray from an attacker to the king on square `k`, with `n` pieces on the ray and `f`
/// of them of the king's side:
/// two pieces (attacker and king) are a check: the check mask becomes the ray without the king
/// and one more checking piece is counted, and any other number leaves both as they were;
/// three pieces, two of them of the king's side, pin the other one of that side: the pin mask of
/// its square becomes the ray without the king, and otherwise no pin mask changes;
/// en passant is disabled when it was, or when the ray is horizontal and holds four pieces, among
/// them a pawn beside the en passant square.
pub proof fn lemma_analyze_ray_cases(
    a: AnalysisModel,
    p: Position,
    attack_ray: u64,
    is_horizontal_ray: bool,
    k: u64,
)
    requires
        a.0.len() == 64,
        a.2 < 255,
        k < 64,
        attack_ray & !crate::bitboard::sq_bb(k) != 0,
    ensures
        ({
            let r = analyze_ray(a, p, attack_ray, is_horizontal_ray, crate::bitboard::sq_bb(k));
            let o = ray_occupancy(p, attack_ray);
            let n = popcount(o);
            let f = o & p.friendly_occupancy;
            let kb = crate::bitboard::sq_bb(k);
            &&& n == 2 ==> r.1 == attack_ray & !kb && r.2 == a.2 + 1
            &&& n != 2 ==> r.1 == a.1 && r.2 == a.2
            &&& (n == 3 && popcount(f) == 2) ==> f & !kb != 0 && r.0 == a.0.update(
                lsb_index(f & !kb) as int,
                attack_ray & !kb,
            )
            &&& !(n == 3 && popcount(f) == 2) ==> r.0 == a.0
            &&& r.3 == (a.3 || (n == 4 && is_horizontal_ray && (o & (p.wp | p.bp)) & ((p.en_passant_sq
                >> 8u64) | (p.en_passant_sq << 8u64)) != 0))
        }),
{
    let kb = crate::bitboard::sq_bb(k);
    let o = ray_occupancy(p, attack_ray);
    let n = popcount(o);
    let f = o & p.friendly_occupancy;
    let pw = p.wp | p.bp;
    let e = (p.en_passant_sq >> 8u64) | (p.en_passant_sq << 8u64);
    lemma_ray_bits(attack_ray, !kb, 0, 0, f, k);
    lemma_ray_bits(o, 0, pw, e, f, k);
    lemma_ray_bits(o, bool_mask(n == 4), pw, e, f, k);
    lemma_ray_bits(o, bool_mask(is_horizontal_ray), pw, e, f, k);
    let sq = pinned_square_of(p, attack_ray, kb);
    if f & !kb != 0 {
        crate::bitboard::lemma_lsb(f & !kb);
    }
    assert(0 <= sq < 64);
    if n == 3 && popcount(f) == 2 {
        if f & !kb == 0 {
            lemma_popcount_single(k);
            crate::bitboard::lemma_popcount_bound(0);
            assert(false);
        }
    } else {
        assert(a.0.update(sq, a.0[sq]) =~= a.0);
    }
}

proof fn lemma_select_sum(a: u64, b: u64)
    by (bit_vector)
    ensures
        (u64::MAX & a) + (!u64::MAX & b) == a,
        (0u64 & a) + (!0u64 & b) == b,
{
}

impl Default for KingAttackRayAnalyzer {
    fn default() -> (a: KingAttackRayAnalyzer)
        ensures
            cleared_model(a@),
    {
        KingAttackRayAnalyzer {
            pin_ray_masks: [u64::MAX; 64],
            check_ray_mask: u64::MAX,
            num_checking_pieces: 0,
            disable_en_passant: false,
        }
    }
}

} // verus!
