//! Token secrecy: the token of a board leaves the service once, in the
//! answer to the request that created the board. The requests that read a
//! board never ask the store for a token, so what they answer does not
//! depend on what the store holds under the keys of the tokens.

use vstd::prelude::*;
use crate::keys::is_token_key;
use crate::keys::lemma_key_kinds_differ;
use crate::keys::spec_token_key;
use crate::routes::board::spec_route_board_get;
use crate::routes::board::BoardGetView;
use crate::routes::score::spec_route_score_get;
use crate::routes::score::ScoreGetView;
use crate::shortcuts::redis::Command;
use crate::shortcuts::redis::Reply;
use crate::shortcuts::redis::StepView;

verus! {

/// Whether a step keeps clear of the tokens: it sends no command that names
/// the key of a token, and it does not answer with a token.
pub open spec fn discreet<T, S>(step: StepView<T, S>) -> bool {
    match step {
        StepView::Send(_, command) => forall|key: Seq<char>|
            is_token_key(key) ==> !#[trigger] command.names(key),
        StepView::Finish(Ok(success)) => !(success.data is Token),
        StepView::Finish(Err(_)) => true,
    }
}

/// Whether two stores hold the same under every key that is not the key of a
/// token.
pub open spec fn same_but_tokens<V>(a: Map<Seq<char>, V>, b: Map<Seq<char>, V>) -> bool {
    forall|key: Seq<char>|
        !is_token_key(key) ==> (#[trigger] a.dom().contains(key) <==> b.dom().contains(key)) && (
        a.dom().contains(key) ==> a[key] == b[key])
}

/// Whether a store answers each command by what it holds under the keys that
/// the command names, and by nothing else that it holds.
pub open spec fn answers_by_key<S, V>(
    answer: spec_fn(Map<Seq<char>, V>, Command<S>) -> Reply<S>,
) -> bool {
    forall|a: Map<Seq<char>, V>, b: Map<Seq<char>, V>, command: Command<S>|
        #![trigger answer(a, command), answer(b, command)]
        (forall|key: Seq<char>| #[trigger]
            command.names(key) ==> (a.dom().contains(key) <==> b.dom().contains(key)) && (
            a.dom().contains(key) ==> a[key] == b[key])) ==> answer(a, command) == answer(
            b,
            command,
        )
}

/// The step that follows `step` when the store holds `store`: the command is
/// answered and the request goes on. A request that was answered stays
/// answered.
pub open spec fn turn<T, S, V>(
    next: spec_fn(T, Reply<S>) -> StepView<T, S>,
    answer: spec_fn(Map<Seq<char>, V>, Command<S>) -> Reply<S>,
    store: Map<Seq<char>, V>,
    step: StepView<T, S>,
) -> StepView<T, S> {
    match step {
        StepView::Send(request, command) => next(request, answer(store, command)),
        StepView::Finish(_) => step,
    }
}

/// The step that a request has come to after `turns` turns on a store that
/// holds `store` throughout.
pub open spec fn run<T, S, V>(
    next: spec_fn(T, Reply<S>) -> StepView<T, S>,
    answer: spec_fn(Map<Seq<char>, V>, Command<S>) -> Reply<S>,
    store: Map<Seq<char>, V>,
    step: StepView<T, S>,
    turns: nat,
) -> StepView<T, S>
    decreases turns,
{
    if turns == 0 {
        step
    } else {
        turn(next, answer, store, run(next, answer, store, step, (turns - 1) as nat))
    }
}

/// A request whose every step keeps clear of the tokens comes to the same
/// step on two stores that differ only in what they hold under the keys of
/// the tokens.
pub proof fn lemma_discreet_run<T, S, V>(
    next: spec_fn(T, Reply<S>) -> StepView<T, S>,
    answer: spec_fn(Map<Seq<char>, V>, Command<S>) -> Reply<S>,
    a: Map<Seq<char>, V>,
    b: Map<Seq<char>, V>,
    step: StepView<T, S>,
    turns: nat,
)
    requires
        discreet(step),
        forall|request: T, reply: Reply<S>| discreet(#[trigger] next(request, reply)),
        answers_by_key(answer),
        same_but_tokens(a, b),
    ensures
        run(next, answer, a, step, turns) == run(next, answer, b, step, turns),
        discreet(run(next, answer, a, step, turns)),
    decreases turns,
{
    if turns > 0 {
        lemma_discreet_run(next, answer, a, b, step, (turns - 1) as nat);
        let before = run(next, answer, a, step, (turns - 1) as nat);
        match before {
            StepView::Send(request, command) => {
                assert forall|key: Seq<char>| #[trigger] command.names(key) implies (
                a.dom().contains(key) <==> b.dom().contains(key)) && (a.dom().contains(key)
                    ==> a[key] == b[key]) by {
                    assert(!is_token_key(key));
                }
                assert(answer(a, command) == answer(b, command));
            },
            StepView::Finish(_) => {},
        }
    }
}

/// No key of an order or of scores is the key of a token.
pub proof fn lemma_read_keys_are_no_token_keys(name: Seq<char>, key: Seq<char>)
    requires
        is_token_key(key),
    ensures
        key != crate::keys::spec_order_key(name),
        key != crate::keys::spec_scores_key(name),
{
    let board = choose|board: Seq<char>| key == #[trigger] spec_token_key(board);
    lemma_key_kinds_differ(name, board);
}

/// The question for a score keeps clear of the tokens, in whatever state it
/// is and whatever the store replies.
pub proof fn lemma_score_get_is_discreet<S>(request: ScoreGetView<S>, reply: Reply<S>)
    ensures
        discreet(request.next(reply)),
{
    assert forall|key: Seq<char>| is_token_key(key) implies key != crate::keys::spec_order_key(
        request.board,
    ) && key != crate::keys::spec_scores_key(request.board) by {
        lemma_read_keys_are_no_token_keys(request.board, key);
    }
}

/// The listing of a board keeps clear of the tokens, in whatever state it is
/// and whatever the store replies.
pub proof fn lemma_board_get_is_discreet<S>(request: BoardGetView, reply: Reply<S>)
    ensures
        discreet(request.next(reply)),
{
    assert forall|key: Seq<char>| is_token_key(key) implies key != crate::keys::spec_order_key(
        request.board,
    ) && key != crate::keys::spec_scores_key(request.board) by {
        lemma_read_keys_are_no_token_keys(request.board, key);
    }
}

/// Token secrecy for the question for a score: on a store that answers each
/// command by what it holds under the keys that the command names, the
/// question comes to the same step, and so to the same answer, whatever the
/// store holds under the keys of the tokens.
pub proof fn lemma_score_get_shows_no_token<S, V>(
    answer: spec_fn(Map<Seq<char>, V>, Command<S>) -> Reply<S>,
    a: Map<Seq<char>, V>,
    b: Map<Seq<char>, V>,
    board: Seq<char>,
    player: Seq<char>,
    turns: nat,
)
    requires
        answers_by_key(answer),
        same_but_tokens(a, b),
    ensures
        ({
            let next = |request: ScoreGetView<S>, reply: Reply<S>| request.next(reply);
            let begun = spec_route_score_get::<S>(board, player);
            &&& run(next, answer, a, begun, turns) == run(next, answer, b, begun, turns)
            &&& discreet(run(next, answer, a, begun, turns))
        }),
{
    let next = |request: ScoreGetView<S>, reply: Reply<S>| request.next(reply);
    assert forall|request: ScoreGetView<S>, reply: Reply<S>| discreet(
        #[trigger] next(request, reply),
    ) by {
        lemma_score_get_is_discreet(request, reply);
    }
    lemma_discreet_run(next, answer, a, b, spec_route_score_get::<S>(board, player), turns);
}

/// Token secrecy for the listing of a board: on a store that answers each
/// command by what it holds under the keys that the command names, the
/// listing comes to the same step, and so to the same answer, whatever the
/// store holds under the keys of the tokens.
pub proof fn lemma_board_get_shows_no_token<S, V>(
    answer: spec_fn(Map<Seq<char>, V>, Command<S>) -> Reply<S>,
    a: Map<Seq<char>, V>,
    b: Map<Seq<char>, V>,
    board: Seq<char>,
    offset: usize,
    size: usize,
    turns: nat,
)
    requires
        answers_by_key(answer),
        same_but_tokens(a, b),
    ensures
        ({
            let next = |request: BoardGetView, reply: Reply<S>| request.next(reply);
            let begun = spec_route_board_get::<S>(board, offset, size);
            &&& run(next, answer, a, begun, turns) == run(next, answer, b, begun, turns)
            &&& discreet(run(next, answer, a, begun, turns))
        }),
{
    let next = |request: BoardGetView, reply: Reply<S>| request.next(reply);
    assert forall|request: BoardGetView, reply: Reply<S>| discreet(
        #[trigger] next(request, reply),
    ) by {
        lemma_board_get_is_discreet(request, reply);
    }
    lemma_discreet_run(next, answer, a, b, spec_route_board_get::<S>(board, offset, size), turns);
}

} // verus!
