use vstd::prelude::*;
use vstd::string::StringSliceAdditionalSpecFns;
use crate::constants::PlayerColour;
use crate::fen::{fen_bytes, fen_loadable, fen_result};
use crate::game_move_list::GameMoveList;
use crate::king_attack_ray_analyzer::KingAttackRayAnalyzer;
use crate::move_maker::MoveMaker;
use crate::move_text::{join_texts, sort_texts, move_texts};
use crate::position::Position;
use crate::position_analyzer::{PositionAnalyzer, analysable, analyzed, attack_analysis, attacked_squares_of, checks_fit, cleared_analysis, opponent, own_king, prepared, enemy_attacks, side_pieces};
use crate::position_helper::{PositionHelper, all_squares_ok, squares_bitboard, algebraic_index, algebraic_index_ok};
use crate::san::chars_of;

verus! {

/// Setting up and checking positions for move generation tests.
pub struct LegalMovesTestHelper {}

/// The pin masks built from a list of (square, pin ray) pairs: every square unrestricted except
/// the listed ones, restricted to their rays (to the intersection when listed twice).
pub open spec fn pin_ray_board(pin_rays: Seq<(&str, Vec<&str>)>) -> Seq<u64>
    decreases pin_rays.len(),
{
    if pin_rays.len() == 0 {
        Seq::new(64, |i: int| u64::MAX)
    } else {
        let b = pin_ray_board(pin_rays.drop_last());
        let sq = algebraic_index(pin_rays.last().0.spec_bytes());
        b.update(sq, b[sq] & squares_bitboard(pin_rays.last().1@))
    }
}

/// Each pair names a square and a list of squares.
pub open spec fn pin_rays_ok(pin_rays: Seq<(&str, Vec<&str>)>) -> bool {
    forall|i: int|
        0 <= i < pin_rays.len() ==> {
            &&& algebraic_index_ok(#[trigger] pin_rays[i].0.spec_bytes())
            &&& algebraic_index(pin_rays[i].0.spec_bytes()) < 64
            &&& all_squares_ok(pin_rays[i].1@)
        }
}

impl LegalMovesTestHelper {
    /// Reads the position (the starting position by default) and analyses the attacks of the
    /// side not to move on the king: the attacked squares, the analysed position, an empty move
    /// list, the analyser and a move maker.
    pub fn init_test_position_from_fen_str(position_str: Option<&str>) -> (r: (
        u64,
        Position,
        GameMoveList,
        KingAttackRayAnalyzer,
        MoveMaker,
    ))
        requires
            fen_loadable(fen_bytes(position_str)),
            fen_result(fen_bytes(position_str)) is Ok,
            analysable(fen_result(fen_bytes(position_str))->Ok_0),
        ensures
            r.0 == enemy_attacks(fen_result(fen_bytes(position_str))->Ok_0),
            r.1 == prepared(fen_result(fen_bytes(position_str))->Ok_0),
            r.2.wf(),
            r.2.list_len == 0,
            r.3@ == attack_analysis(
                cleared_analysis(),
                fen_result(fen_bytes(position_str))->Ok_0,
                opponent(fen_result(fen_bytes(position_str))->Ok_0),
                own_king(fen_result(fen_bytes(position_str))->Ok_0),
            ),
    {
        let move_maker = MoveMaker::default();
        let move_list = GameMoveList::default();
        let mut position = match Position::from_fen(position_str) {
            Ok(p) => p,
            Err(_) => {
                return (0, Position::default(), move_list, KingAttackRayAnalyzer::default(), move_maker);
            },
        };
        let (enemy_attacked_squares, king_attack_analyzer) = LegalMovesTestHelper::init_test_position_from_position(
            &mut position,
        );
        (enemy_attacked_squares, position, move_list, king_attack_analyzer, move_maker)
    }

    /// Analyses the attacks of the side not to move on the king with a fresh analyser and
    /// updates the position from the analysis; returns the attacked squares and the analyser.
    pub fn init_test_position_from_position(position: &mut Position) -> (r: (u64, KingAttackRayAnalyzer))
        requires
            analysable(*old(position)),
        ensures
            r.0 == enemy_attacks(*old(position)),
            *final(position) == prepared(*old(position)),
            r.1@ == attack_analysis(cleared_analysis(), *old(position), opponent(*old(position)), own_king(*old(position))),
    {
        let mut king_attack_analyzer = KingAttackRayAnalyzer::default();
        proof {
            assert(king_attack_analyzer@.0 =~= cleared_analysis().0);
        }
        let enemy_attacked_squares = LegalMovesTestHelper::calc_enemy_attacked_squares(
            position,
            &mut king_attack_analyzer,
        );
        (enemy_attacked_squares, king_attack_analyzer)
    }

    /// The squares attacked by the side not to move, recording its attacks on the king in the
    /// analyser; the position is updated from the analysis.
    pub fn calc_enemy_attacked_squares(
        position: &mut Position,
        king_attack_analyzer: &mut KingAttackRayAnalyzer,
    ) -> (r: u64)
        requires
            side_pieces(*old(position), opponent(*old(position))).2 != 0,
            checks_fit(
                old(king_attack_analyzer).num_checking_pieces,
                *old(position),
                opponent(*old(position)),
                own_king(*old(position)),
            ),
        ensures
            r == attacked_squares_of(*old(position), opponent(*old(position)), own_king(*old(position))),
            final(king_attack_analyzer)@ == attack_analysis(
                old(king_attack_analyzer)@,
                *old(position),
                opponent(*old(position)),
                own_king(*old(position)),
            ),
            *final(position) == analyzed(*old(position), final(king_attack_analyzer)@),
    {
        let final_player_colour = if position.white_to_move {
            PlayerColour::BLACK
        } else {
            PlayerColour::WHITE
        };
        let enemy_king_pos = match final_player_colour {
            PlayerColour::BLACK => position.wk,
            PlayerColour::WHITE => position.bk,
        };
        let attacked_squares = PositionAnalyzer::calc_all_attacked_squares(
            position,
            &final_player_colour,
            enemy_king_pos,
            king_attack_analyzer,
        );
        PositionAnalyzer::update_position_from_king_ray_attack_analysis(position, king_attack_analyzer);
        attacked_squares
    }

    /// Whether the attacked squares of a movement result are the named squares and the move
    /// list reads as the expected text (sorted coordinate notations separated by spaces).
    pub fn check_attack_and_movement_squares(
        calc_movement_result: (u64, u64),
        move_list: &GameMoveList,
        expected_attack_squares: Vec<&str>,
        expected_movement_square_list_str: &str,
    ) -> (r: bool)
        requires
            move_list.wf(),
            all_squares_ok(expected_attack_squares@),
        ensures
            r == (calc_movement_result.0 == squares_bitboard(expected_attack_squares@) && join_texts(
                sort_texts(move_texts(*move_list)),
            ) == expected_movement_square_list_str@),
    {
        let (attacked_squares, _movement_squares) = calc_movement_result;
        let moves_text = move_list.move_list_string();
        let actual = chars_of(moves_text.as_str());
        let expected = chars_of(expected_movement_square_list_str);
        let mut same = actual.len() == expected.len();
        let mut i: usize = 0;
        while same && i < actual.len()
            invariant
                actual@.len() == expected@.len() || !same,
                i <= actual@.len(),
                same ==> forall|k: int| 0 <= k < i ==> actual@[k] == expected@[k],
                !same ==> actual@ != expected@,
            decreases actual@.len() - i,
        {
            if actual[i] != expected[i] {
                same = false;
            }
            i = i + 1;
        }
        proof {
            if same {
                assert(actual@ =~= expected@);
            }
        }
        attacked_squares == PositionHelper::bitboard_from_algebraic(expected_attack_squares) && same
    }

    /// The pin masks of a list of (square, pin ray) pairs: every square unrestricted except the
    /// listed ones, which are restricted to their rays.
    pub fn generate_pin_ray_board(pin_rays: Vec<(&str, Vec<&str>)>) -> (r: [u64; 64])
        requires
            pin_rays_ok(pin_rays@),
        ensures
            r@ == pin_ray_board(pin_rays@),
    {
        let ghost all = pin_rays@;
        let mut result: [u64; 64] = [u64::MAX; 64];
        let mut rest = pin_rays;
        let ghost mut done: int = 0;
        proof {
            assert(result@ =~= pin_ray_board(all.take(0)));
            assert(rest@ =~= all.skip(0));
        }
        while rest.len() > 0
            invariant
                0 <= done <= all.len(),
                rest@ == all.skip(done),
                pin_rays_ok(all),
                result@ == pin_ray_board(all.take(done)),
            decreases rest@.len(),
        {
            let (board_sq, pin_ray) = rest.remove(0);
            proof {
                assert(all[done] == (board_sq, pin_ray));
                assert(all.take(done + 1).drop_last() =~= all.take(done));
                assert(all.skip(done + 1) =~= all.skip(done).drop_first());
            }
            let sq = PositionHelper::index_from_algebraic(board_sq) as usize;
            let ray_board = PositionHelper::bitboard_from_algebraic(pin_ray);
            result[sq] = result[sq] & ray_board;
            proof {
                done = done + 1;
                assert(result@ =~= pin_ray_board(all.take(done)));
            }
        }
        proof {
            assert(all.take(done) =~= all);
        }
        result
    }

    /// Whether the analyser holds the expected pin masks, check mask, number of checking pieces
    /// and en passant flag.
    pub fn check_king_attack_analysis(
        king_attack_analyzer: &KingAttackRayAnalyzer,
        expected_pin_ray_masks: [u64; 64],
        expected_check_ray_mask: u64,
        expected_num_checking_pieces: u8,
        expected_disable_en_passant: bool,
    ) -> (r: bool)
        ensures
            r == (king_attack_analyzer@ == (
                expected_pin_ray_masks@,
                expected_check_ray_mask,
                expected_num_checking_pieces,
                expected_disable_en_passant,
            )),
    {
        let mut same_pins = true;
        let mut i: usize = 0;
        while i < 64
            invariant
                i <= 64,
                same_pins == (forall|k: int| 0 <= k < i ==> king_attack_analyzer.pin_ray_masks[k] == expected_pin_ray_masks[k]),
            decreases 64 - i,
        {
            if king_attack_analyzer.pin_ray_masks[i] != expected_pin_ray_masks[i] {
                same_pins = false;
            }
            i = i + 1;
        }
        proof {
            if same_pins {
                assert(king_attack_analyzer.pin_ray_masks@ =~= expected_pin_ray_masks@);
            } else {
                let k = choose|k: int| 0 <= k < 64 && king_attack_analyzer.pin_ray_masks[k] != expected_pin_ray_masks[k];
                assert(king_attack_analyzer.pin_ray_masks@[k] != expected_pin_ray_masks@[k]);
            }
        }
        same_pins && king_attack_analyzer.check_ray_mask == expected_check_ray_mask
            && king_attack_analyzer.num_checking_pieces == expected_num_checking_pieces
            && king_attack_analyzer.disable_en_passant == expected_disable_en_passant
    }

    /// Gives the move to the other side, recomputes the occupancy, empties the move list (when
    /// given), clears the analyser (the given one, or a scratch one) and analyses the attacks of
    /// the side now not to move; returns the squares they attack.
    pub fn switch_sides(
        position: &mut Position,
        move_list: Option<&mut GameMoveList>,
        king_attack_analyzer: Option<&mut KingAttackRayAnalyzer>,
    ) -> (r: u64)
        requires
            analysable(Position { white_to_move: !old(position).white_to_move, ..*old(position) }.with_occupancy()),
            move_list matches Some(l) ==> l.wf(),
        ensures
            r == enemy_attacks(Position { white_to_move: !old(position).white_to_move, ..*old(position) }.with_occupancy()),
            *final(position) == prepared(Position { white_to_move: !old(position).white_to_move, ..*old(position) }.with_occupancy()),
            move_list matches Some(l) ==> final(l).wf() && final(l).list_len == 0,
            king_attack_analyzer matches Some(a) ==> final(a)@ == attack_analysis(
                cleared_analysis(),
                Position { white_to_move: !old(position).white_to_move, ..*old(position) }.with_occupancy(),
                opponent(Position { white_to_move: !old(position).white_to_move, ..*old(position) }.with_occupancy()),
                own_king(Position { white_to_move: !old(position).white_to_move, ..*old(position) }.with_occupancy()),
            ),
    {
        position.white_to_move = !position.white_to_move;
        position.update_occupancy();
        match move_list {
            Some(l) => {
                l.clear();
            },
            None => {},
        }
        let mut temp_king_attack_analyzer = KingAttackRayAnalyzer::default();
        let final_king_attack_analyzer = match king_attack_analyzer {
            Some(a) => a,
            None => &mut temp_king_attack_analyzer,
        };
        final_king_attack_analyzer.clear();
        proof {
            assert(final_king_attack_analyzer@.0 =~= cleared_analysis().0);
        }
        LegalMovesTestHelper::calc_enemy_attacked_squares(position, final_king_attack_analyzer)
    }
}

} // verus!
