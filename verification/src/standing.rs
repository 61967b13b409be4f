//! A model of the store's scores, and what the engine's choice of comparison
//! mode and of rank direction comes to on it.
//!
//! The engine never compares two scores. It hands the store a comparison
//! mode with every score and asks for ranks in one of two directions; the
//! store does the rest. This module states, on ghost values with integers for
//! scores, what the store keeps and how it counts, and proves that with the
//! mode and the direction of a board's sorting order the player's best score
//! stands and ranks count from the best score.

use vstd::prelude::*;
use vstd::set_lib::lemma_len_subset;
use crate::outcome::DataView;
use crate::outcome::RouteScoreResponse;
use crate::outcome::StatusCode;
use crate::outcome::SuccessView;
use crate::routes::score::ScorePutStage;
use crate::routes::score::ScorePutView;
use crate::shortcuts::redis::Command;
use crate::shortcuts::redis::Reply;
use crate::shortcuts::redis::StepView;
use crate::utils::sorting::lemma_code_round_trip;
use crate::utils::sorting::lemma_codes_differ;
use crate::utils::sorting::SortingOrder;

verus! {

/// Whether the score `a` is strictly better than the score `b` under the
/// order: less on an ascending board, greater on a descending one.
pub open spec fn better(order: SortingOrder, a: int, b: int) -> bool {
    match order {
        SortingOrder::Ascending => a < b,
        SortingOrder::Descending => a > b,
    }
}

/// Whether the store's conditional update lets `score` through against the
/// score that it holds: with `LT` if it is strictly less, with `GT` if it is
/// strictly greater.
pub open spec fn admits(mode: Seq<char>, score: int, stored: int) -> bool {
    (mode == "LT"@ && score < stored) || (mode == "GT"@ && score > stored)
}

/// What the store holds for a player after a conditional update, and whether
/// it counts a change: a first score is always taken.
pub open spec fn updated(stored: Option<int>, mode: Seq<char>, score: int) -> (Option<int>, bool) {
    match stored {
        None => (Some(score), true),
        Some(held) => if admits(mode, score, held) {
            (Some(score), true)
        } else {
            (stored, false)
        },
    }
}

/// What the store holds for a player after the scores were submitted one by
/// one with the comparison mode of the order.
pub open spec fn submitted(order: SortingOrder, scores: Seq<int>) -> Option<int>
    decreases scores.len(),
{
    if scores.len() == 0 {
        None
    } else {
        updated(submitted(order, scores.drop_last()), order.spec_zadd_mode(), scores.last()).0
    }
}

/// Whether `best` is the best of the scores under the order: one of them,
/// with none of them strictly better.
pub open spec fn is_best(order: SortingOrder, scores: Seq<int>, best: int) -> bool {
    &&& exists|i: int| 0 <= i < scores.len() && scores[i] == best
    &&& forall|i: int| 0 <= i < scores.len() ==> !better(order, #[trigger] scores[i], best)
}

/// The comparison mode of an order lets a score through exactly if the score
/// is strictly better under the order.
pub proof fn lemma_mode_admits_the_better(order: SortingOrder, score: int, stored: int)
    ensures
        admits(order.spec_zadd_mode(), score, stored) <==> better(order, score, stored),
{
    lemma_codes_differ();
}

/// Best-score monotonicity: whatever scores are submitted for a player, in
/// whatever sequence, the store holds the best of them under the order of
/// the board.
pub proof fn lemma_best_score_stands(order: SortingOrder, scores: Seq<int>)
    requires
        scores.len() > 0,
    ensures
        submitted(order, scores) matches Some(best) && is_best(order, scores, best),
    decreases scores.len(),
{
    let earlier = scores.drop_last();
    let score = scores.last();
    lemma_mode_admits_the_better(order, score, score);
    if earlier.len() == 0 {
        assert(scores[0] == score);
    } else {
        lemma_best_score_stands(order, earlier);
        let held = submitted(order, earlier)->0;
        lemma_mode_admits_the_better(order, score, held);
        let witness = choose|i: int| 0 <= i < earlier.len() && earlier[i] == held;
        assert(scores[witness] == held);
        assert(scores[scores.len() - 1] == score);
        let best = submitted(order, scores)->0;
        assert forall|i: int| 0 <= i < scores.len() implies !better(
            order,
            #[trigger] scores[i],
            best,
        ) by {
            if i < earlier.len() {
                assert(earlier[i] == scores[i]);
                assert(!better(order, earlier[i], held));
            }
        }
    }
}

/// A score that is no improvement changes nothing: after earlier
/// submissions, the store counts a change exactly if the new score is
/// strictly better than the one it holds, and else holds what it held.
pub proof fn lemma_worse_score_is_ignored(order: SortingOrder, earlier: Seq<int>, score: int)
    requires
        earlier.len() > 0,
    ensures
        ({
            let held = submitted(order, earlier);
            let (kept, changed) = updated(held, order.spec_zadd_mode(), score);
            &&& held is Some
            &&& changed <==> better(order, score, held->0)
            &&& !changed ==> kept == held
            &&& changed ==> kept == Some(score)
        }),
{
    lemma_best_score_stands(order, earlier);
    lemma_mode_admits_the_better(order, score, submitted(order, earlier)->0);
}

/// What the submission of a score answers once the token of the board has
/// matched, on a store that holds `held` for the player and reports `rank`:
/// the replies to the question for the order, to the conditional update, to
/// the question for the score and to the question for the rank, one after
/// the other.
pub open spec fn answered(
    request: ScorePutView<int>,
    order: SortingOrder,
    held: Option<int>,
    rank: i64,
) -> StepView<ScorePutView<int>, int> {
    match request.next(Reply::Text(order.code())) {
        StepView::Send(adding, Command::ZAdd { mode, score, .. }) => {
            let (kept, changed) = updated(held, mode, score);
            match adding.next(
                Reply::Integer(
                    if changed {
                        1
                    } else {
                        0
                    },
                ),
            ) {
                StepView::Send(reading, _) => match reading.next(Reply::Score(kept->0)) {
                    StepView::Send(ranking, _) => ranking.next(Reply::Integer(rank)),
                    ended => ended,
                },
                ended => ended,
            }
        },
        ended => ended,
    }
}

/// Best-score monotonicity, as the player sees it: the answer to a
/// submission holds the best score that was ever submitted for the player,
/// the new one included, and it says "created" exactly if the new score is
/// the first or strictly better than every earlier one.
pub proof fn lemma_submission_answers_the_best(
    request: ScorePutView<int>,
    order: SortingOrder,
    earlier: Seq<int>,
    score: int,
    rank: i64,
)
    requires
        request.stage == ScorePutStage::<int>::ReadingOrder(score),
        0 <= rank <= usize::MAX,
    ensures
        ({
            let scores = earlier.push(score);
            let improved = forall|i: int|
                0 <= i < earlier.len() ==> better(order, score, #[trigger] earlier[i]);
            &&& submitted(order, scores) matches Some(best)
            &&& is_best(order, scores, best)
            &&& answered(request, order, submitted(order, earlier), rank) == StepView::<
                ScorePutView<int>,
                int,
            >::Finish(
                Ok(
                    SuccessView {
                        status: if improved {
                            StatusCode::Created
                        } else {
                            StatusCode::Okay
                        },
                        data: DataView::Score(RouteScoreResponse { score: best, rank: rank as usize }),
                    },
                ),
            )
        }),
{
    let scores = earlier.push(score);
    assert(scores.drop_last() =~= earlier);
    assert(scores.last() == score);
    lemma_best_score_stands(order, scores);
    lemma_code_round_trip(order);
    if earlier.len() > 0 {
        lemma_best_score_stands(order, earlier);
        lemma_worse_score_is_ignored(order, earlier, score);
        let held = submitted(order, earlier)->0;
        let witness = choose|i: int| 0 <= i < earlier.len() && earlier[i] == held;
        if better(order, score, held) {
            assert forall|i: int| 0 <= i < earlier.len() implies better(
                order,
                score,
                #[trigger] earlier[i],
            ) by {
                assert(!better(order, earlier[i], held));
            }
        } else {
            assert(!better(order, score, earlier[witness]));
        }
    }
}

/// Whether the store places the entry `a` before the entry `b`: by score,
/// and by name among equal scores, from the least up or, reversed, from the
/// greatest down. `tie` is the order in which the store places names.
pub open spec fn placed_before(
    tie: spec_fn(Seq<char>, Seq<char>) -> bool,
    a: (Seq<char>, int),
    b: (Seq<char>, int),
    reversed: bool,
) -> bool {
    if reversed {
        a.1 > b.1 || (a.1 == b.1 && tie(b.0, a.0))
    } else {
        a.1 < b.1 || (a.1 == b.1 && tie(a.0, b.0))
    }
}

/// The players that the store places before `player`.
pub open spec fn ahead(
    scores: Map<Seq<char>, int>,
    tie: spec_fn(Seq<char>, Seq<char>) -> bool,
    player: Seq<char>,
    reversed: bool,
) -> Set<Seq<char>> {
    Set::new(
        |other: Seq<char>|
            scores.dom().contains(other) && other != player && placed_before(
                tie,
                (other, scores[other]),
                (player, scores[player]),
                reversed,
            ),
    )
}

/// The players with a strictly better score than `player` under the order.
pub open spec fn beating(scores: Map<Seq<char>, int>, order: SortingOrder, player: Seq<char>) -> Set<
    Seq<char>,
> {
    Set::new(
        |other: Seq<char>|
            scores.dom().contains(other) && better(order, scores[other], scores[player]),
    )
}

/// The other players whose score is no worse than that of `player` under the
/// order.
pub open spec fn rivalling(scores: Map<Seq<char>, int>, order: SortingOrder, player: Seq<char>)
    -> Set<Seq<char>> {
    Set::new(
        |other: Seq<char>|
            scores.dom().contains(other) && other != player && !better(
                order,
                scores[player],
                scores[other],
            ),
    )
}

/// The rank that the store answers to a question for a rank: how many
/// players it places before the player, from the least score up for `ZRANK`
/// and from the greatest down for `ZREVRANK`.
pub open spec fn ranked<S>(
    scores: Map<Seq<char>, int>,
    tie: spec_fn(Seq<char>, Seq<char>) -> bool,
    command: Command<S>,
) -> nat {
    match command {
        Command::ZRank { player, .. } => ahead(scores, tie, player, false).len(),
        Command::ZRevRank { player, .. } => ahead(scores, tie, player, true).len(),
        _ => 0,
    }
}

/// Rank consistency: the rank that the engine asks for, in the direction of
/// the order of the board, counts every player with a strictly better score
/// and none with a worse one. However the store places equal scores, the
/// rank lies between the number of players that beat the player and the
/// number of other players that are no worse; without a rival of equal
/// score it is the number of players that beat the player, and the best
/// player has rank 0.
pub proof fn lemma_rank_counts_from_the_best<S>(
    scores: Map<Seq<char>, int>,
    tie: spec_fn(Seq<char>, Seq<char>) -> bool,
    order: SortingOrder,
    key: Seq<char>,
    player: Seq<char>,
)
    requires
        scores.dom().finite(),
        scores.dom().contains(player),
    ensures
        ({
            let rank = ranked(scores, tie, Command::<S>::rank(order, key, player));
            &&& rank == ahead(scores, tie, player, order.spec_ranks_reversed()).len()
            &&& beating(scores, order, player).len() <= rank <= rivalling(
                scores,
                order,
                player,
            ).len()
            &&& beating(scores, order, player) == rivalling(scores, order, player) ==> rank
                == beating(scores, order, player).len()
            &&& rivalling(scores, order, player).len() == 0 ==> rank == 0
        }),
{
    let counted = ahead(scores, tie, player, order.spec_ranks_reversed());
    let beating = beating(scores, order, player);
    let rivalling = rivalling(scores, order, player);
    assert(rivalling.subset_of(scores.dom()));
    lemma_len_subset(rivalling, scores.dom());
    assert(counted.subset_of(rivalling));
    lemma_len_subset(counted, rivalling);
    assert(beating.subset_of(counted));
    lemma_len_subset(beating, counted);
}

} // verus!
