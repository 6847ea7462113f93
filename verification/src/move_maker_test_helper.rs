use vstd::prelude::*;
use crate::game_move::GameMove;
use crate::move_maker::{MoveMaker, make_move_ok, lemma_unmake_restores};
use crate::position::Position;
use crate::position_helper::{PositionHelper, all_squares_ok, squares_bitboard};

verus! {

/// Checking the results of making and taking back moves.
pub struct MoveMakerTestHelper {}

/// Every listed bitboard holds exactly the named squares.
pub open spec fn boards_match(expected_results: Seq<(u64, Vec<&str>)>) -> bool {
    forall|i: int| 0 <= i < expected_results.len() ==> (#[trigger] expected_results[i]).0 == squares_bitboard(
        expected_results[i].1@,
    )
}

/// The fields compared after a move is made and taken back are those of the position before.
pub open spec fn restored_fields(a: Position, b: Position) -> bool {
    &&& a.wp == b.wp && a.wn == b.wn && a.wb == b.wb && a.wr == b.wr && a.wq == b.wq && a.wk == b.wk
    &&& a.bq == b.bq && a.bn == b.bn && a.bb == b.bb && a.br == b.br && a.bk == b.bk
    &&& a.en_passant_sq == b.en_passant_sq && a.castling_rights == b.castling_rights
    &&& a.white_occupancy == b.white_occupancy && a.black_occupancy == b.black_occupancy
    &&& a.friendly_occupancy == b.friendly_occupancy && a.enemy_occupancy == b.enemy_occupancy
    &&& a.non_occupancy == b.non_occupancy && a.all_occupancy == b.all_occupancy
    &&& a.white_to_move == b.white_to_move
    &&& a.fifty_move_count == b.fifty_move_count
    &&& a.move_number == b.move_number
}

impl MoveMakerTestHelper {
    /// Whether each bitboard holds exactly the squares named beside it.
    pub fn check_make_move_result(expected_results: Vec<(u64, Vec<&str>)>) -> (r: bool)
        requires
            forall|i: int| 0 <= i < expected_results@.len() ==> all_squares_ok(#[trigger] expected_results@[i].1@),
        ensures
            r == boards_match(expected_results@),
    {
        let ghost all = expected_results@;
        let mut rest = expected_results;
        let ghost mut done: int = 0;
        let mut all_match = true;
        proof {
            assert(rest@ =~= all.skip(0));
        }
        while rest.len() > 0
            invariant
                0 <= done <= all.len(),
                rest@ == all.skip(done),
                forall|i: int| 0 <= i < all.len() ==> all_squares_ok(#[trigger] all[i].1@),
                all_match == boards_match(all.take(done)),
            decreases rest@.len(),
        {
            let (board, target_squares) = rest.remove(0);
            proof {
                assert(all[done] == (board, target_squares));
                assert(all.skip(done + 1) =~= all.skip(done).drop_first());
            }
            let matches = board == PositionHelper::bitboard_from_algebraic(target_squares);
            proof {
                assert forall|i: int| 0 <= i < done + 1 implies #[trigger] all.take(done + 1)[i] == all.take(done)[i]
                    || i == done by {}
                if all_match && matches {
                    assert forall|i: int| 0 <= i < done + 1 implies (#[trigger] all.take(done + 1)[i]).0
                        == squares_bitboard(all.take(done + 1)[i].1@) by {
                        if i < done {
                            assert(all.take(done + 1)[i] == all.take(done)[i]);
                        }
                    }
                }
                if !matches {
                    assert(all.take(done + 1)[done] == all[done]);
                }
                if !all_match {
                    let k = choose|k: int| 0 <= k < done && (#[trigger] all.take(done)[k]).0 != squares_bitboard(
                        all.take(done)[k].1@,
                    );
                    assert(all.take(done + 1)[k] == all.take(done)[k]);
                }
                done = done + 1;
            }
            all_match = all_match && matches;
        }
        proof {
            assert(all.take(done) =~= all);
        }
        all_match
    }

    /// Makes the move and takes it back; whether the pieces, en passant square, castling rights,
    /// occupancy, side to move and counters are as before. They always are for a position whose
    /// occupancy agrees with its pieces.
    pub fn test_unmake_move(position: &mut Position, move_maker: &mut MoveMaker, game_move: &GameMove) -> (r: bool)
        requires
            make_move_ok(*old(position), *game_move),
        ensures
            r == restored_fields(*final(position), *old(position)),
            *final(position) == old(position).with_occupancy(),
            *final(move_maker) == MoveMaker::saved_from(*old(position)),
            old(position).occupancy_consistent() ==> r && *final(position) == *old(position),
    {
        let orig = *position;
        move_maker.make_move(position, game_move, true);
        proof {
            lemma_unmake_restores(orig, *game_move, position.pin_ray_masks);
        }
        move_maker.unmake_move(position, game_move);
        position.wp == orig.wp && position.wn == orig.wn && position.wb == orig.wb && position.wr == orig.wr
            && position.wq == orig.wq && position.wk == orig.wk && position.bq == orig.bq
            && position.bn == orig.bn && position.bb == orig.bb && position.br == orig.br
            && position.bq == orig.bq && position.bk == orig.bk
            && position.en_passant_sq == orig.en_passant_sq
            && position.castling_rights == orig.castling_rights
            && position.white_occupancy == orig.white_occupancy
            && position.black_occupancy == orig.black_occupancy
            && position.friendly_occupancy == orig.friendly_occupancy
            && position.enemy_occupancy == orig.enemy_occupancy
            && position.non_occupancy == orig.non_occupancy
            && position.all_occupancy == orig.all_occupancy
            && position.white_to_move == orig.white_to_move
            && position.fifty_move_count == orig.fifty_move_count
            && position.move_number == orig.move_number
    }
}

} // verus!
