use vstd::prelude::*;
use crate::game_move::{GameMove, move_key};
use crate::game_move_list::{GameMoveList, MAX_MOVES_PER_POSITION};
use crate::move_maker::{MoveMaker, made_position, make_move_ok, no_pins};
use crate::pieces::piece::MoveKey;
use crate::position::{Position, open_pins};
use crate::move_count::MoveCounter;
use crate::position_analyzer::{PositionAnalyzer, analysable, generated_moves, prepared};

verus! {

/// Counts the leaves of the tree of legal moves (a move generator test).
pub struct PerftBenchmark {}

/// A move with the given fields (its notation buffer plays no part in making it).
pub open spec fn key_move(k: MoveKey) -> GameMove {
    GameMove {
        piece: k.0,
        source_square: k.1,
        target_square: k.2,
        promotion_piece: k.3,
        is_capture: k.4,
        extended_move_san: arbitrary(),
    }
}

/// The position after playing `k` in `q`.
pub open spec fn after_move(q: Position, k: MoveKey) -> Position {
    made_position(q, key_move(k), open_pins())
}

/// The number of sequences of `depth` generated moves from `p` (the number of generated moves
/// for a depth of one or less).
pub open spec fn perft_nodes(p: Position, depth: nat) -> nat
    decreases depth, 1nat, 0nat,
{
    if depth <= 1 {
        generated_moves(p).len()
    } else {
        perft_sum(prepared(p), generated_moves(p), (depth - 1) as nat)
    }
}

/// The sum of the node counts of depth `d` after each of the moves `ks` in `q`.
pub open spec fn perft_sum(q: Position, ks: Seq<MoveKey>, d: nat) -> nat
    decreases d + 1, 0nat, ks.len(),
{
    if ks.len() == 0 {
        0
    } else {
        perft_sum(q, ks.drop_last(), d) + perft_nodes(after_move(q, ks.last()), d)
    }
}

/// Counting from `p` to `depth` stays within the limits of the move generator: both kings
/// present, no overflow of the check count or of the move list, and moves that can be made.
pub open spec fn perft_ok(p: Position, depth: nat) -> bool
    decreases depth, 1nat, 0nat,
{
    &&& analysable(p)
    &&& generated_moves(p).len() <= MAX_MOVES_PER_POSITION
    &&& (depth > 1 ==> perft_all_ok(prepared(p), generated_moves(p), (depth - 1) as nat))
}

/// Each of the moves `ks` can be made in `q`, and counting to `d` from the result stays within
/// the limits of the move generator.
pub open spec fn perft_all_ok(q: Position, ks: Seq<MoveKey>, d: nat) -> bool
    decreases d + 1, 0nat, ks.len(),
{
    ks.len() == 0 || (perft_all_ok(q, ks.drop_last(), d) && make_move_ok(q, key_move(ks.last()))
        && perft_ok(after_move(q, ks.last()), d))
}

/// Facts about the first `i` moves of `ks` follow from those about all of them.
proof fn lemma_perft_prefix(q: Position, ks: Seq<MoveKey>, d: nat, i: int)
    requires
        0 <= i <= ks.len(),
        perft_all_ok(q, ks, d),
    ensures
        perft_all_ok(q, ks.take(i), d),
        perft_sum(q, ks.take(i), d) <= perft_sum(q, ks, d),
        i < ks.len() ==> make_move_ok(q, key_move(ks[i])) && perft_ok(after_move(q, ks[i]), d),
        i < ks.len() ==> perft_sum(q, ks.take(i + 1), d) == perft_sum(q, ks.take(i), d) + perft_nodes(
            after_move(q, ks[i]),
            d,
        ),
    decreases ks.len(),
{
    if i == ks.len() {
        assert(ks.take(i) =~= ks);
    } else {
        assert(ks.drop_last().take(i) =~= ks.take(i));
        lemma_perft_prefix(q, ks.drop_last(), d, i);
        if i + 1 == ks.len() {
            assert(ks.take(i + 1) =~= ks);
            assert(ks.take(i + 1).drop_last() =~= ks.take(i));
        } else {
            assert(ks.drop_last().take(i + 1) =~= ks.take(i + 1));
            lemma_perft_prefix(q, ks.drop_last(), d, i + 1);
        }
    }
}

/// Making a move depends only on what the move plays and on the pieces, not on the occupancy
/// fields or the pin masks of the position it is made in.
proof fn lemma_made_by_key(q: Position, m: GameMove, masks: [u64; 64])
    requires
        no_pins(masks),
    ensures
        made_position(q, m, masks) == after_move(q, move_key(m)),
        made_position(q.with_occupancy(), m, masks) == after_move(q, move_key(m)),
{
    let pins = Seq::new(64, |i: int| u64::MAX);
    assert(exists|a: [u64; 64]| a@ == pins) by {
        assert(masks@ =~= pins);
    }
    assert(open_pins() =~= masks);
}

/// Taking back a move restores the position it was made in, with its occupancy recomputed,
/// whatever analysis the moved position received.
proof fn lemma_unmake_prepared(q: Position, m: GameMove, masks: [u64; 64])
    requires
        make_move_ok(q, m),
    ensures
        prepared(made_position(q, m, masks)).white_to_move ==> prepared(made_position(q, m, masks)).move_number >= 1,
        MoveMaker::saved_from(q).unmade_position(prepared(made_position(q, m, masks))) == q.with_occupancy(),
        MoveMaker::saved_from(q).unmade_position(prepared(made_position(q, m, masks)).with_occupancy())
            == q.with_occupancy(),
        MoveMaker::saved_from(q.with_occupancy()) == MoveMaker::saved_from(q),
{
}

impl PerftBenchmark {
    /// Makes the move in the position (`q`, or `q` with its occupancy recomputed), counts the
    /// leaves below it to `depth` and takes the move back.
    fn perft_after_move(
        position: &mut Position,
        move_maker: &mut MoveMaker,
        game_move: &GameMove,
        depth: u8,
        Ghost(q): Ghost<Position>,
    ) -> (n: usize)
        requires
            *old(position) == q || *old(position) == q.with_occupancy(),
            make_move_ok(q, *game_move),
            perft_ok(after_move(q, move_key(*game_move)), depth as nat),
            perft_nodes(after_move(q, move_key(*game_move)), depth as nat) <= usize::MAX,
        ensures
            n == perft_nodes(after_move(q, move_key(*game_move)), depth as nat),
            *final(position) == q.with_occupancy(),
        decreases depth + 1, 0nat,
    {
        move_maker.make_move(position, game_move, true);
        proof {
            lemma_made_by_key(q, *game_move, position.pin_ray_masks);
            lemma_unmake_prepared(q, *game_move, position.pin_ray_masks);
        }
        let n = PerftBenchmark::run_perft_recursive(position, depth);
        move_maker.unmake_move(position, game_move);
        n
    }

    /// The number of leaves of the tree of legal moves of depth `depth` from `position`, found
    /// by making and taking back every move. The position ends analysed (and with its occupancy
    /// recomputed once a move was made and taken back).
    #[verifier::rlimit(40)]
    pub fn run_perft_recursive(position: &mut Position, depth: u8) -> (nodes: usize)
        requires
            perft_ok(*old(position), depth as nat),
            perft_nodes(*old(position), depth as nat) <= usize::MAX,
        ensures
            nodes == perft_nodes(*old(position), depth as nat),
            *final(position) == (if depth > 1 && generated_moves(*old(position)).len() > 0 {
                prepared(*old(position)).with_occupancy()
            } else {
                prepared(*old(position))
            }),
        decreases depth, 1nat,
    {
        let ghost p = *position;
        let ghost ks = generated_moves(p);
        let mut move_maker = MoveMaker::default();
        let mut move_list = GameMoveList::default();
        proof {
            assert(move_list.keys() =~= Seq::<MoveKey>::empty());
        }
        PositionAnalyzer::calc_legal_moves(position, &mut move_list);
        proof {
            assert(move_list.keys() =~= ks);
        }
        let ghost q = *position;
        if depth <= 1 {
            return move_list.list_len;
        }
        let ghost d = (depth - 1) as nat;
        let mut nodes: usize = 0;
        let mut i: usize = 0;
        while i < move_list.list_len
            invariant
                move_list.wf(),
                move_list.keys() == ks,
                ks == generated_moves(p),
                q == prepared(p),
                d == depth - 1,
                depth > 1,
                i <= move_list.list_len,
                move_list.list_len == ks.len(),
                perft_all_ok(q, ks, d),
                perft_sum(q, ks, d) == perft_nodes(p, depth as nat),
                perft_nodes(p, depth as nat) <= usize::MAX,
                nodes == perft_sum(q, ks.take(i as int), d),
                i == 0 ==> *position == q,
                i > 0 ==> *position == q.with_occupancy(),
            decreases move_list.list_len - i,
        {
            proof {
                lemma_perft_prefix(q, ks, d, i as int);
                lemma_perft_prefix(q, ks, d, i + 1);
                assert(move_key(move_list.move_list@[i as int]) == ks[i as int]);
            }
            let n = PerftBenchmark::perft_after_move(
                position,
                &mut move_maker,
                &move_list.move_list[i],
                depth - 1,
                Ghost(q),
            );
            nodes = nodes + n;
            i = i + 1;
        }
        proof {
            assert(ks.take(ks.len() as int) =~= ks);
        }
        nodes
    }
}

/// One step of the checked count through the moves `ks` of `p`: the facts about the first
/// `i + 1` moves from those about the first `i` and the count below the move `i`.
proof fn lemma_checked_step(p: Position, q: Position, ks: Seq<MoveKey>, d: nat, depth: nat, i: int)
    requires
        q == prepared(p),
        ks == generated_moves(p),
        analysable(p),
        ks.len() <= MAX_MOVES_PER_POSITION,
        depth > 1,
        d == depth - 1,
        0 <= i < ks.len(),
        perft_all_ok(q, ks.take(i), d),
    ensures
        make_move_ok(q, key_move(ks[i])) && perft_ok(after_move(q, ks[i]), d) ==> perft_all_ok(
            q,
            ks.take(i + 1),
            d,
        ),
        perft_sum(q, ks.take(i + 1), d) == perft_sum(q, ks.take(i), d) + perft_nodes(after_move(q, ks[i]), d),
        perft_ok(p, depth) ==> make_move_ok(q, key_move(ks[i])) && perft_ok(after_move(q, ks[i]), d)
            && perft_sum(q, ks.take(i + 1), d) <= perft_nodes(p, depth),
{
    assert(ks.take(i + 1).drop_last() =~= ks.take(i));
    assert(ks.take(i + 1).last() == ks[i]);
    if perft_ok(p, depth) {
        lemma_perft_prefix(q, ks, d, i);
        lemma_perft_prefix(q, ks, d, i + 1);
    }
}

/// The count through the moves `ks` of `p` goes on from move `i` when the move `i` was made
/// and counted below.
proof fn lemma_checked_advance(
    p: Position,
    q: Position,
    ks: Seq<MoveKey>,
    d: nat,
    depth: nat,
    i: int,
    nodes: int,
    total: int,
    m: GameMove,
)
    requires
        q == prepared(p),
        ks == generated_moves(p),
        analysable(p),
        ks.len() <= MAX_MOVES_PER_POSITION,
        depth > 1,
        d == depth - 1,
        0 <= i < ks.len(),
        perft_all_ok(q, ks.take(i), d),
        nodes == perft_sum(q, ks.take(i), d),
        move_key(m) == ks[i],
        make_move_ok(q, m),
        perft_ok(after_move(q, move_key(m)), d),
        total == nodes + perft_nodes(after_move(q, move_key(m)), d),
    ensures
        perft_all_ok(q, ks.take(i + 1), d),
        total == perft_sum(q, ks.take(i + 1), d),
{
    lemma_checked_step(p, q, ks, d, depth, i);
    assert(make_move_ok(q, key_move(ks[i])));
}

/// The count through the moves `ks` of `p` stops at move `i` only where the limits of the move
/// generator are reached or the count overflows.
proof fn lemma_checked_stop(
    p: Position,
    q: Position,
    ks: Seq<MoveKey>,
    d: nat,
    depth: nat,
    i: int,
    nodes: int,
    m: GameMove,
)
    requires
        q == prepared(p),
        ks == generated_moves(p),
        analysable(p),
        ks.len() <= MAX_MOVES_PER_POSITION,
        depth > 1,
        d == depth - 1,
        0 <= i < ks.len(),
        perft_all_ok(q, ks.take(i), d),
        nodes == perft_sum(q, ks.take(i), d),
        move_key(m) == ks[i],
        !(make_move_ok(q, m) && perft_ok(after_move(q, move_key(m)), d) && nodes + perft_nodes(
            after_move(q, move_key(m)),
            d,
        ) <= usize::MAX),
    ensures
        !(perft_ok(p, depth) && perft_nodes(p, depth) <= usize::MAX),
{
    lemma_checked_step(p, q, ks, d, depth, i);
    assert(make_move_ok(q, key_move(ks[i])) == make_move_ok(q, m));
}

impl PerftBenchmark {
    /// Adds to `nodes` the count of the leaves below the move, to `depth`, in the position (`q`,
    /// or `q` with its occupancy recomputed), with the limits of the move generator checked:
    /// `None` where the move cannot be made, a limit is reached below it, or the sum overflows.
    /// The move is taken back after counting.
    fn perft_checked_step(
        position: &mut Position,
        move_maker: &mut MoveMaker,
        game_move: &GameMove,
        depth: u8,
        nodes: usize,
        Ghost(q): Ghost<Position>,
    ) -> (r: Option<usize>)
        requires
            *old(position) == q || *old(position) == q.with_occupancy(),
        ensures
            r matches Some(t) ==> make_move_ok(q, *game_move) && perft_ok(
                after_move(q, move_key(*game_move)),
                depth as nat,
            ) && t == nodes + perft_nodes(after_move(q, move_key(*game_move)), depth as nat)
                && *final(position) == q.with_occupancy(),
            make_move_ok(q, *game_move) && perft_ok(after_move(q, move_key(*game_move)), depth as nat) && nodes
                + perft_nodes(after_move(q, move_key(*game_move)), depth as nat) <= usize::MAX ==> r is Some,
        decreases depth + 1, 0nat,
    {
        // The move can be made: squares on the board, counters that cannot overflow
        if !(game_move.source_square < 64 && game_move.target_square < 64 && position.fifty_move_count < 255
            && (position.white_to_move || position.move_number < u16::MAX)) {
            return None;
        }
        move_maker.make_move(position, game_move, true);
        proof {
            lemma_made_by_key(q, *game_move, position.pin_ray_masks);
            lemma_unmake_prepared(q, *game_move, position.pin_ray_masks);
        }
        match PerftBenchmark::run_perft_checked(position, depth) {
            Some(n) => {
                move_maker.unmake_move(position, game_move);
                nodes.checked_add(n)
            },
            None => None,
        }
    }

    /// The number of leaves of the tree of legal moves of depth `depth` from `position`, found
    /// by making and taking back every move, with the limits of the move generator checked on
    /// the way: `None` where a position lacks a king, could overflow the count of checks or the
    /// move list, a move cannot be made, or the count overflows; the count otherwise.
    #[verifier::rlimit(40)]
    pub fn run_perft_checked(position: &mut Position, depth: u8) -> (r: Option<usize>)
        ensures
            r matches Some(n) ==> perft_ok(*old(position), depth as nat) && n == perft_nodes(
                *old(position),
                depth as nat,
            ) && *final(position) == (if depth > 1 && generated_moves(*old(position)).len() > 0 {
                prepared(*old(position)).with_occupancy()
            } else {
                prepared(*old(position))
            }),
            perft_ok(*old(position), depth as nat) && perft_nodes(*old(position), depth as nat) <= usize::MAX
                ==> r is Some,
        decreases depth, 1nat,
    {
        let ghost p = *position;
        let ghost ks = generated_moves(p);
        if !PositionAnalyzer::is_analysable(position) {
            return None;
        }
        if MoveCounter::legal_move_count(position) > MAX_MOVES_PER_POSITION as u64 {
            return None;
        }
        let mut move_maker = MoveMaker::default();
        let mut move_list = GameMoveList::default();
        proof {
            assert(move_list.keys() =~= Seq::<MoveKey>::empty());
        }
        PositionAnalyzer::calc_legal_moves(position, &mut move_list);
        proof {
            assert(move_list.keys() =~= ks);
        }
        let ghost q = *position;
        if depth <= 1 {
            return Some(move_list.list_len);
        }
        let ghost d = (depth - 1) as nat;
        let mut nodes: usize = 0;
        let mut i: usize = 0;
        proof {
            assert(ks.take(0) =~= Seq::<MoveKey>::empty());
        }
        while i < move_list.list_len
            invariant
                p == *old(position),
                move_list.wf(),
                move_list.keys() == ks,
                ks == generated_moves(p),
                q == prepared(p),
                analysable(p),
                ks.len() <= MAX_MOVES_PER_POSITION,
                d == depth - 1,
                depth > 1,
                i <= move_list.list_len,
                move_list.list_len == ks.len(),
                perft_all_ok(q, ks.take(i as int), d),
                nodes == perft_sum(q, ks.take(i as int), d),
                i == 0 ==> *position == q,
                i > 0 ==> *position == q.with_occupancy(),
            decreases move_list.list_len - i,
        {
            let game_move = &move_list.move_list[i];
            proof {
                assert(move_key(move_list.move_list@[i as int]) == ks[i as int]);
            }
            let ghost m = *game_move;
            match PerftBenchmark::perft_checked_step(position, &mut move_maker, game_move, depth - 1, nodes, Ghost(q)) {
                Some(total) => {
                    proof {
                        lemma_checked_advance(p, q, ks, d, depth as nat, i as int, nodes as int, total as int, m);
                    }
                    nodes = total;
                },
                None => {
                    proof {
                        lemma_checked_stop(p, q, ks, d, depth as nat, i as int, nodes as int, m);
                    }
                    return None;
                },
            }
            i = i + 1;
        }
        proof {
            assert(ks.take(ks.len() as int) =~= ks);
        }
        Some(nodes)
    }
}

} // verus!
