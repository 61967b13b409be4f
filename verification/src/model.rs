//! A model of the store's optimistic transactions, and what the creation of
//! boards does on it.
//!
//! The engine leaves mutual exclusion to the store: a client watches keys,
//! opens a transaction and queues writes, and the store executes the
//! transaction only if no watched key was written in between. This module
//! states that behaviour as a transition system on ghost values and proves
//! that requests which create one board, taking turns in any order, create
//! it exactly once.

use vstd::prelude::*;
use crate::keys::lemma_key_kinds_differ;
use crate::keys::spec_order_key;
use crate::keys::spec_scores_key;
use crate::keys::spec_token_key;
use crate::outcome::DataView;
use crate::outcome::Failure;
use crate::outcome::StatusCode;
use crate::outcome::SuccessView;
use crate::routes::board::BoardPostStage;
use crate::routes::board::BoardPostView;
use crate::shortcuts::redis::Command;
use crate::shortcuts::redis::Reply;
use crate::shortcuts::redis::StepView;
use crate::utils::sorting::SortingOrder;

verus! {

/// What a key holds in the model: a string, or the scores of a board.
pub enum Stored {
    Text(Seq<char>),
    Scores,
}

/// What the store answers to `TYPE` for a key.
pub open spec fn kind(store: Map<Seq<char>, Stored>, key: Seq<char>) -> Seq<char> {
    if !store.dom().contains(key) {
        "none"@
    } else {
        match store[key] {
            Stored::Text(_) => "string"@,
            Stored::Scores => "zset"@,
        }
    }
}

/// The store answers `none` for the keys that hold nothing, and for no other.
pub proof fn lemma_kind_none(store: Map<Seq<char>, Stored>, key: Seq<char>)
    ensures
        kind(store, key) == "none"@ <==> !store.dom().contains(key),
{
    reveal_strlit("none");
    reveal_strlit("string");
    reveal_strlit("zset");
    assert("string"@.len() != "none"@.len());
    assert("zset"@[0] != "none"@[0]);
}

/// A client of the store: a request with its connection.
pub struct Client<S> {
    /// What the request wants next.
    pub step: StepView<BoardPostView, S>,
    /// The keys that the connection watches.
    pub watched: Set<Seq<char>>,
    /// Whether a watched key was written since it is watched.
    pub dirty: bool,
    /// Whether a transaction is open.
    pub queuing: bool,
    /// The writes that the open transaction holds.
    pub queued: Map<Seq<char>, Seq<char>>,
}

impl<S> Client<S> {
    /// Whether one of the writes goes to a key that the client watches.
    pub open spec fn touched(self, writes: Map<Seq<char>, Seq<char>>) -> bool {
        exists|key: Seq<char>| self.watched.contains(key) && #[trigger] writes.dom().contains(key)
    }

    /// The client after the writes were made, by itself or by another.
    pub open spec fn disturbed(self, writes: Map<Seq<char>, Seq<char>>) -> Client<S> {
        Client { dirty: self.dirty || self.touched(writes), ..self }
    }

    /// The client after its transaction has ended, executed or given up.
    pub open spec fn released(self) -> Client<S> {
        Client {
            watched: Set::empty(),
            dirty: false,
            queuing: false,
            queued: Map::empty(),
            ..self
        }
    }

    /// Whether the request was answered with a board created.
    pub open spec fn created(self) -> bool {
        self.step matches StepView::Finish(Ok(_))
    }

    /// Whether the request was answered with a conflict.
    pub open spec fn refused(self) -> bool {
        self.step == StepView::<BoardPostView, S>::Finish(Err(Failure::BoardExists))
    }

    /// Whether the request was answered.
    pub open spec fn answered(self) -> bool {
        self.step is Finish
    }
}

/// One turn: the client `who` has its command served and goes on with the
/// reply. `generated` is what the generation of a token ends in, should the
/// client ask for one in this turn.
pub struct Turn {
    pub who: int,
    pub generated: Result<Seq<char>, Failure>,
}

/// The store with its clients.
pub struct World<S> {
    pub store: Map<Seq<char>, Stored>,
    pub clients: Seq<Client<S>>,
}

impl<S> World<S> {
    /// The world with another state of the client `who`.
    pub open spec fn with_client(self, who: int, client: Client<S>) -> World<S> {
        World { clients: self.clients.update(who, client), ..self }
    }

    /// The world after the writes were made: the keys hold the new strings,
    /// and every client that watches one of them is dirty.
    pub open spec fn written(self, writes: Map<Seq<char>, Seq<char>>) -> World<S> {
        World {
            store: Map::new(
                |key: Seq<char>| self.store.dom().contains(key) || writes.dom().contains(key),
                |key: Seq<char>|
                    if writes.dom().contains(key) {
                        Stored::Text(writes[key])
                    } else {
                        self.store[key]
                    },
            ),
            clients: Seq::new(self.clients.len(), |c: int| self.clients[c].disturbed(writes)),
        }
    }

    /// What the store does with a command of the client `who`, and what it
    /// answers. The model covers the commands that the creation of a board
    /// sends; it fails every other command.
    ///
    /// - `WATCH` adds the keys to those that the connection watches.
    /// - `TYPE` tells what the key holds.
    /// - `MULTI` opens a transaction; `SET` in a transaction is queued;
    ///   `SET` outside one is written at once.
    /// - `EXEC` on a dirty connection gives the transaction up and answers
    ///   nothing; on a clean one it makes the queued writes at once, which
    ///   leaves every other connection that watches one of the keys dirty.
    ///   Either way the connection itself watches no key afterwards.
    pub open spec fn serve(self, who: int, command: Command<S>) -> (World<S>, Reply<S>) {
        let client = self.clients[who];
        match command {
            Command::Connect => (self, Reply::Done),
            Command::Watch { order_key, token_key, scores_key } => (
                self.with_client(
                    who,
                    Client {
                        watched: client.watched.insert(order_key).insert(token_key).insert(
                            scores_key,
                        ),
                        ..client
                    },
                ),
                Reply::Done,
            ),
            Command::KeyType { key } => (self, Reply::Text(kind(self.store, key))),
            Command::Multi => (
                self.with_client(who, Client { queuing: true, ..client }),
                Reply::Done,
            ),
            Command::SetKey { key, value } => if client.queuing {
                (
                    self.with_client(
                        who,
                        Client { queued: client.queued.insert(key, value), ..client },
                    ),
                    Reply::Done,
                )
            } else {
                (self.written(Map::empty().insert(key, value)), Reply::Done)
            },
            Command::Exec => if !client.queuing {
                (self, Reply::Failed)
            } else if client.dirty {
                (self.with_client(who, client.released()), Reply::Nil)
            } else {
                (
                    self.written(client.queued).with_client(who, client.released()),
                    Reply::Done,
                )
            },
            _ => (self, Reply::Failed),
        }
    }

    /// The world after one turn: the client's command is served, and the
    /// request goes on with the reply. A request that was answered stays
    /// answered.
    pub open spec fn turn(self, turn: Turn) -> World<S> {
        if 0 <= turn.who < self.clients.len() {
            match self.clients[turn.who].step {
                StepView::Send(request, command) => {
                    let (served, reply) = self.serve(turn.who, command);
                    served.with_client(
                        turn.who,
                        Client {
                            step: request.next(reply, turn.generated),
                            ..served.clients[turn.who]
                        },
                    )
                },
                StepView::Finish(_) => self,
            }
        } else {
            self
        }
    }

    /// The world after the turns of a schedule, one after the other.
    pub open spec fn run(self, schedule: Seq<Turn>) -> World<S>
        decreases schedule.len(),
    {
        if schedule.len() == 0 {
            self
        } else {
            self.run(schedule.drop_last()).turn(schedule.last())
        }
    }

    /// Whether every client is a request that has just begun to create the
    /// board `name`, on a connection of its own that watches nothing yet.
    /// Requests begin so for every name of which `name` is the canonical
    /// form, whatever sorting order they ask for.
    pub open spec fn begun(self, name: Seq<char>) -> bool {
        forall|c: int|
            0 <= c < self.clients.len() ==> {
                let client = #[trigger] self.clients[c];
                &&& client.step matches StepView::Send(request, command)
                &&& request.board == name
                &&& request.stage == BoardPostStage::Connecting
                &&& command == Command::<S>::Connect
                &&& client.watched == Set::<Seq<char>>::empty()
                &&& !client.dirty
                &&& !client.queuing
                &&& client.queued == Map::<Seq<char>, Seq<char>>::empty()
            }
    }

    /// Whether the store holds none of the three keys of the board.
    pub open spec fn vacant(self, name: Seq<char>) -> bool {
        &&& !self.store.dom().contains(spec_order_key(name))
        &&& !self.store.dom().contains(spec_token_key(name))
        &&& !self.store.dom().contains(spec_scores_key(name))
    }

    /// Whether the request of the client `c` was answered with a board
    /// created.
    pub open spec fn created(self, c: int) -> bool {
        0 <= c < self.clients.len() && self.clients[c].created()
    }

    /// Whether every request was answered.
    pub open spec fn all_answered(self) -> bool {
        forall|c: int| 0 <= c < self.clients.len() ==> (#[trigger] self.clients[c]).answered()
    }

    /// What holds of the client `c` while the requests take their turns: its
    /// request waits for the reply that belongs to its stage, it watches the
    /// key of the order once it has asked to, its transaction holds the
    /// order once it has queued it, and as long as it is clean after it has
    /// found the key of the order empty, that key is still empty.
    pub open spec fn sound_at(self, c: int, name: Seq<char>) -> bool {
        let client = self.clients[c];
        let order_key = spec_order_key(name);
        match client.step {
            StepView::Finish(_) => true,
            StepView::Send(request, command) => {
                &&& request.board == name
                &&& match request.stage {
                    BoardPostStage::Connecting => {
                        &&& command == Command::<S>::Connect
                        &&& client.queued == Map::<Seq<char>, Seq<char>>::empty()
                    },
                    BoardPostStage::Watching => {
                        &&& command == Command::<S>::Watch {
                            order_key,
                            token_key: spec_token_key(name),
                            scores_key: spec_scores_key(name),
                        }
                        &&& client.queued == Map::<Seq<char>, Seq<char>>::empty()
                    },
                    BoardPostStage::CheckingOrder => {
                        &&& command == Command::<S>::KeyType { key: order_key }
                        &&& client.queued == Map::<Seq<char>, Seq<char>>::empty()
                        &&& client.watched.contains(order_key)
                    },
                    BoardPostStage::CheckingToken => {
                        &&& command == Command::<S>::KeyType { key: spec_token_key(name) }
                        &&& client.queued == Map::<Seq<char>, Seq<char>>::empty()
                        &&& client.watched.contains(order_key)
                        &&& !client.dirty ==> !self.store.dom().contains(order_key)
                    },
                    BoardPostStage::CheckingScores => {
                        &&& command == Command::<S>::KeyType { key: spec_scores_key(name) }
                        &&& client.queued == Map::<Seq<char>, Seq<char>>::empty()
                        &&& client.watched.contains(order_key)
                        &&& !client.dirty ==> !self.store.dom().contains(order_key)
                    },
                    BoardPostStage::Opening => {
                        &&& command == Command::<S>::Multi
                        &&& client.queued == Map::<Seq<char>, Seq<char>>::empty()
                        &&& client.watched.contains(order_key)
                        &&& !client.dirty ==> !self.store.dom().contains(order_key)
                    },
                    BoardPostStage::QueuingOrder => {
                        &&& command == Command::<S>::SetKey {
                            key: order_key,
                            value: request.order.code(),
                        }
                        &&& client.queuing
                        &&& client.queued == Map::<Seq<char>, Seq<char>>::empty()
                        &&& client.watched.contains(order_key)
                        &&& !client.dirty ==> !self.store.dom().contains(order_key)
                    },
                    BoardPostStage::QueuingToken => {
                        &&& command == Command::<S>::SetKey {
                            key: spec_token_key(name),
                            value: request.token,
                        }
                        &&& client.queuing
                        &&& client.queued.dom().contains(order_key)
                        &&& forall|key: Seq<char>| #[trigger]
                            client.queued.dom().contains(key) ==> key == order_key
                        &&& client.watched.contains(order_key)
                        &&& !client.dirty ==> !self.store.dom().contains(order_key)
                    },
                    BoardPostStage::Executing => {
                        &&& command == Command::<S>::Exec
                        &&& client.queuing
                        &&& client.queued.dom().contains(order_key)
                        &&& client.queued.dom().contains(spec_token_key(name))
                        &&& forall|key: Seq<char>| #[trigger]
                            client.queued.dom().contains(key) ==> key == order_key || key
                                == spec_token_key(name)
                        &&& client.watched.contains(order_key)
                        &&& !client.dirty ==> !self.store.dom().contains(order_key)
                    },
                }
            },
        }
    }

    /// What holds of the world while the requests take their turns: every
    /// client is sound, at most one request has created the board, and if
    /// one has, the key of the order holds something.
    pub open spec fn sound(self, name: Seq<char>) -> bool {
        &&& forall|c: int| 0 <= c < self.clients.len() ==> #[trigger] self.sound_at(c, name)
        &&& forall|a: int, b: int| self.created(a) && self.created(b) ==> a == b
        &&& forall|c: int| self.created(c) ==> self.store.dom().contains(spec_order_key(name))
    }

    /// Whether the board is whole: the store holds its order and its token,
    /// or neither.
    pub open spec fn whole(self, name: Seq<char>) -> bool {
        self.store.dom().contains(spec_order_key(name)) <==> self.store.dom().contains(
            spec_token_key(name),
        )
    }

    /// The sorting order that the request of the client `c` asks for, in a
    /// world in which it has not been answered yet.
    pub open spec fn asked(self, c: int) -> SortingOrder {
        self.clients[c].step->Send_0.order
    }

    /// Whether the store holds the board as the client `c` asked for it and
    /// was answered: the code of the order that its request began with, and
    /// the token that its answer holds.
    pub open spec fn holds(self, begun: World<S>, c: int, name: Seq<char>) -> bool {
        &&& self.clients[c].step matches StepView::Finish(Ok(success))
        &&& success.status == StatusCode::Created
        &&& success.data matches DataView::Token(token)
        &&& self.store.dom().contains(spec_order_key(name))
        &&& self.store[spec_order_key(name)] == Stored::Text(begun.asked(c).code())
        &&& self.store.dom().contains(spec_token_key(name))
        &&& self.store[spec_token_key(name)] == Stored::Text(token)
    }

    /// What holds of the client `c` with respect to the world in which the
    /// requests began: its request keeps the order that it began with, its
    /// transaction holds the code of that order and its token once it has
    /// queued them, and if it was answered with the board created, the
    /// store holds the board as it asked for it.
    pub open spec fn true_at(self, begun: World<S>, c: int, name: Seq<char>) -> bool {
        let client = self.clients[c];
        match client.step {
            StepView::Send(request, _) => {
                &&& request.order == begun.asked(c)
                &&& request.stage == BoardPostStage::QueuingToken || request.stage
                    == BoardPostStage::Executing ==> client.queued[spec_order_key(name)]
                    == request.order.code()
                &&& request.stage == BoardPostStage::Executing ==> client.queued[spec_token_key(
                    name,
                )] == request.token
            },
            StepView::Finish(Ok(_)) => self.holds(begun, c, name),
            StepView::Finish(Err(_)) => true,
        }
    }

    /// Whether every client is true to the world in which the requests
    /// began.
    pub open spec fn true_to(self, begun: World<S>, name: Seq<char>) -> bool {
        &&& self.clients.len() == begun.clients.len()
        &&& forall|c: int|
            0 <= c < self.clients.len() ==> #[trigger] self.true_at(begun, c, name)
    }

    /// What holds besides where the store held no key of the board at first
    /// and no generation of a token fails: every answer is a creation or a
    /// conflict, and as long as no request has created the board, the store
    /// holds none of its keys, no client is dirty and no request was
    /// refused.
    pub open spec fn fair(self, name: Seq<char>) -> bool {
        &&& forall|c: int|
            0 <= c < self.clients.len() && (#[trigger] self.clients[c]).answered() ==> (
            self.clients[c].created() || self.clients[c].refused())
        &&& (forall|c: int| !self.created(c)) ==> {
            &&& self.vacant(name)
            &&& forall|c: int|
                0 <= c < self.clients.len() ==> !(#[trigger] self.clients[c]).dirty
                    && !self.clients[c].refused()
        }
    }
}

/// One turn keeps a sound world sound.
pub proof fn lemma_turn_keeps_sound<S>(world: World<S>, name: Seq<char>, turn: Turn)
    requires
        world.sound(name),
    ensures
        world.turn(turn).sound(name),
        world.turn(turn).clients.len() == world.clients.len(),
{
    let after = world.turn(turn);
    let who = turn.who;
    let order_key = spec_order_key(name);
    lemma_key_kinds_differ(name, name);
    if 0 <= who < world.clients.len() {
        assert(world.sound_at(who, name));
        match world.clients[who].step {
            StepView::Finish(_) => {},
            StepView::Send(request, command) => {
                let client = world.clients[who];
                assert forall|c: int| 0 <= c < after.clients.len() implies #[trigger] after.sound_at(
                    c,
                    name,
                ) by {
                    assert(world.sound_at(c, name));
                    if c != who {
                        if request.stage == BoardPostStage::Executing && !client.dirty {
                            if world.clients[c].watched.contains(order_key) {
                                assert(client.queued.dom().contains(order_key));
                                assert(world.clients[c].touched(client.queued));
                            }
                        }
                    } else if request.stage == BoardPostStage::CheckingOrder {
                        lemma_kind_none(world.store, order_key);
                    }
                }
                assert forall|a: int, b: int| after.created(a) && after.created(b) implies a
                    == b by {
                    if a != who {
                        assert(world.created(a));
                    }
                    if b != who {
                        assert(world.created(b));
                    }
                }
                assert forall|c: int| after.created(c) implies after.store.dom().contains(
                    order_key,
                ) by {
                    if c != who {
                        assert(world.created(c));
                    }
                }
            },
        }
    }
}

/// One turn leaves the board whole: its order and its token are written
/// together or not at all.
pub proof fn lemma_turn_keeps_whole<S>(world: World<S>, name: Seq<char>, turn: Turn)
    requires
        world.sound(name),
        world.whole(name),
    ensures
        world.turn(turn).whole(name),
{
    lemma_key_kinds_differ(name, name);
    if 0 <= turn.who < world.clients.len() {
        assert(world.sound_at(turn.who, name));
    }
}

/// One turn keeps the world true to the one in which the requests began.
pub proof fn lemma_turn_keeps_true<S>(
    world: World<S>,
    begun: World<S>,
    name: Seq<char>,
    turn: Turn,
)
    requires
        world.sound(name),
        world.true_to(begun, name),
    ensures
        world.turn(turn).true_to(begun, name),
{
    let after = world.turn(turn);
    let who = turn.who;
    let order_key = spec_order_key(name);
    lemma_key_kinds_differ(name, name);
    lemma_turn_keeps_sound(world, name, turn);
    if 0 <= who < world.clients.len() {
        assert(world.sound_at(who, name));
        assert(world.true_at(begun, who, name));
        match world.clients[who].step {
            StepView::Finish(_) => {},
            StepView::Send(_, _) => {
                assert forall|c: int| 0 <= c < after.clients.len() implies #[trigger] after.true_at(
                    begun,
                    c,
                    name,
                ) by {
                    assert(world.true_at(begun, c, name));
                    assert(world.sound_at(c, name));
                    if c != who && world.clients[c].created() {
                        assert(world.created(c));
                        assert(world.store.dom().contains(order_key));
                        assert(after.store == world.store);
                    }
                }
            },
        }
    }
}

/// A schedule keeps the world true to the one in which the requests began.
pub proof fn lemma_run_keeps_true<S>(world: World<S>, name: Seq<char>, schedule: Seq<Turn>)
    requires
        world.begun(name),
    ensures
        world.run(schedule).true_to(world, name),
    decreases schedule.len(),
{
    lemma_begun_is_sound(world, name);
    if schedule.len() > 0 {
        lemma_run_keeps_true(world, name, schedule.drop_last());
        lemma_run_keeps_sound(world, name, schedule.drop_last());
        lemma_turn_keeps_true(world.run(schedule.drop_last()), world, name, schedule.last());
    } else {
        assert forall|c: int| 0 <= c < world.clients.len() implies #[trigger] world.true_at(
            world,
            c,
            name,
        ) by {
            assert(world.clients[c].step is Send);
        }
    }
}

/// One turn in which no generation of a token fails keeps a fair world fair.
pub proof fn lemma_turn_keeps_fair<S>(world: World<S>, name: Seq<char>, turn: Turn)
    requires
        world.sound(name),
        world.fair(name),
        turn.generated is Ok,
    ensures
        world.turn(turn).fair(name),
{
    let after = world.turn(turn);
    let who = turn.who;
    let order_key = spec_order_key(name);
    lemma_key_kinds_differ(name, name);
    lemma_turn_keeps_sound(world, name, turn);
    lemma_kind_none(world.store, order_key);
    lemma_kind_none(world.store, spec_token_key(name));
    lemma_kind_none(world.store, spec_scores_key(name));
    if 0 <= who < world.clients.len() {
        assert(world.sound_at(who, name));
        match world.clients[who].step {
            StepView::Finish(_) => {},
            StepView::Send(request, command) => {
                let client = world.clients[who];
                if exists|c: int| world.created(c) {
                    let winner = choose|c: int| world.created(c);
                    assert(after.created(winner));
                    assert(client.dirty || world.store.dom().contains(order_key));
                } else {
                    assert(!client.dirty);
                    assert(world.vacant(name));
                    if after.clients[who].created() {
                        assert(after.created(who));
                    } else {
                        assert forall|c: int| !after.created(c) by {
                            if c != who {
                                assert(!world.created(c));
                            }
                        }
                        assert forall|c: int| 0 <= c < after.clients.len() implies !(
                        #[trigger] after.clients[c]).dirty && !after.clients[c].refused() by {
                            assert(!world.clients[c].dirty);
                            assert(!world.clients[c].refused());
                        }
                    }
                }
                assert forall|c: int|
                    0 <= c < after.clients.len() && (#[trigger] after.clients[c]).answered() implies (
                after.clients[c].created() || after.clients[c].refused()) by {
                    if c != who {
                        assert(world.clients[c].answered());
                    }
                }
            },
        }
    }
}

/// A schedule keeps a sound world sound.
pub proof fn lemma_run_keeps_sound<S>(world: World<S>, name: Seq<char>, schedule: Seq<Turn>)
    requires
        world.sound(name),
    ensures
        world.run(schedule).sound(name),
        world.run(schedule).clients.len() == world.clients.len(),
    decreases schedule.len(),
{
    if schedule.len() > 0 {
        lemma_run_keeps_sound(world, name, schedule.drop_last());
        lemma_turn_keeps_sound(world.run(schedule.drop_last()), name, schedule.last());
    }
}

/// A schedule in which no generation of a token fails keeps a fair world
/// fair.
pub proof fn lemma_run_keeps_fair<S>(world: World<S>, name: Seq<char>, schedule: Seq<Turn>)
    requires
        world.sound(name),
        world.fair(name),
        forall|t: int| 0 <= t < schedule.len() ==> (#[trigger] schedule[t]).generated is Ok,
    ensures
        world.run(schedule).fair(name),
    decreases schedule.len(),
{
    if schedule.len() > 0 {
        let before = schedule.drop_last();
        assert forall|t: int| 0 <= t < before.len() implies (#[trigger] before[t]).generated is Ok by {
            assert(before[t] == schedule[t]);
        }
        lemma_run_keeps_fair(world, name, before);
        lemma_run_keeps_sound(world, name, before);
        lemma_turn_keeps_fair(world.run(before), name, schedule.last());
    }
}

/// A schedule leaves the board whole.
pub proof fn lemma_run_keeps_whole<S>(world: World<S>, name: Seq<char>, schedule: Seq<Turn>)
    requires
        world.sound(name),
        world.whole(name),
    ensures
        world.run(schedule).whole(name),
    decreases schedule.len(),
{
    if schedule.len() > 0 {
        lemma_run_keeps_whole(world, name, schedule.drop_last());
        lemma_run_keeps_sound(world, name, schedule.drop_last());
        lemma_turn_keeps_whole(world.run(schedule.drop_last()), name, schedule.last());
    }
}

/// Requests that have just begun make a sound world.
pub proof fn lemma_begun_is_sound<S>(world: World<S>, name: Seq<char>)
    requires
        world.begun(name),
    ensures
        world.sound(name),
        world.vacant(name) ==> world.fair(name),
{
    assert forall|c: int| 0 <= c < world.clients.len() implies #[trigger] world.sound_at(
        c,
        name,
    ) by {
        assert(world.clients[c].step is Send);
    }
    assert forall|c: int| !world.created(c) by {
        if 0 <= c < world.clients.len() {
            assert(world.clients[c].step is Send);
        }
    }
    assert forall|c: int|
        0 <= c < world.clients.len() implies !(#[trigger] world.clients[c]).answered()
        && !world.clients[c].dirty && !world.clients[c].refused() by {
        assert(world.clients[c].step is Send);
    }
}

/// Alone on a store that holds none of the keys of the board, a request
/// creates the board in nine turns: it is answered with the token that was
/// generated for it, and the store then holds the code of the order and the
/// token under the keys of the board, and nothing under the key of the
/// scores.
pub proof fn lemma_lone_request_creates<S>(world: World<S>, name: Seq<char>, token: Seq<char>)
    requires
        world.begun(name),
        world.vacant(name),
        world.clients.len() == 1,
    ensures
        ({
            let turn = Turn { who: 0, generated: Ok(token) };
            let order = world.clients[0].step->Send_0.order;
            let end = world.turn(turn).turn(turn).turn(turn).turn(turn).turn(turn).turn(turn).turn(
                turn,
            ).turn(turn).turn(turn);
            &&& end.clients[0].step == StepView::<BoardPostView, S>::Finish(
                Ok(SuccessView { status: StatusCode::Created, data: DataView::Token(token) }),
            )
            &&& end.store.dom().contains(spec_order_key(name))
            &&& end.store[spec_order_key(name)] == Stored::Text(order.code())
            &&& end.store.dom().contains(spec_token_key(name))
            &&& end.store[spec_token_key(name)] == Stored::Text(token)
            &&& !end.store.dom().contains(spec_scores_key(name))
        }),
{
    let turn = Turn { who: 0, generated: Ok(token) };
    let order_key = spec_order_key(name);
    let token_key = spec_token_key(name);
    let scores_key = spec_scores_key(name);
    lemma_key_kinds_differ(name, name);
    lemma_kind_none(world.store, order_key);
    lemma_kind_none(world.store, token_key);
    lemma_kind_none(world.store, scores_key);
    assert(world.clients[0].step is Send);
    let connected = world.turn(turn);
    assert(connected.clients[0].step->Send_0.stage == BoardPostStage::Watching);
    let watching = connected.turn(turn);
    assert(watching.clients[0].step->Send_0.stage == BoardPostStage::CheckingOrder);
    let checked_order = watching.turn(turn);
    assert(checked_order.clients[0].step->Send_0.stage == BoardPostStage::CheckingToken);
    let checked_token = checked_order.turn(turn);
    assert(checked_token.clients[0].step->Send_0.stage == BoardPostStage::CheckingScores);
    let checked_scores = checked_token.turn(turn);
    assert(checked_scores.clients[0].step->Send_0.stage == BoardPostStage::Opening);
    let opened = checked_scores.turn(turn);
    assert(opened.clients[0].step->Send_0.stage == BoardPostStage::QueuingOrder);
    assert(opened.clients[0].queuing);
    let queued_order = opened.turn(turn);
    assert(queued_order.clients[0].step->Send_0.stage == BoardPostStage::QueuingToken);
    let queued_token = queued_order.turn(turn);
    assert(queued_token.clients[0].step->Send_0.stage == BoardPostStage::Executing);
    assert(!queued_token.clients[0].dirty);
    assert(queued_token.store == world.store);
    let end = queued_token.turn(turn);
    assert(end.store.dom().contains(order_key));
}

/// No partial board: let any number of requests begin to create the board
/// `name` on a store that holds its order and its token or neither, and let
/// them take their turns in any order. Then the store holds the order and
/// the token of the board, or neither, after every turn.
pub proof fn lemma_board_is_never_partial<S>(
    world: World<S>,
    name: Seq<char>,
    schedule: Seq<Turn>,
)
    requires
        world.begun(name),
        world.whole(name),
    ensures
        world.run(schedule).whole(name),
{
    lemma_begun_is_sound(world, name);
    lemma_run_keeps_whole(world, name, schedule);
}

/// The store holds what the winner was told: let any number of requests
/// begin to create the board `name`, on any store, and let them take their
/// turns in any order. Whenever a request is answered with the board
/// created, the store holds the code of the order that this request asked
/// for and the token that its answer holds, and it holds them for as long as
/// the requests go on.
pub proof fn lemma_store_holds_the_created_board<S>(
    world: World<S>,
    name: Seq<char>,
    schedule: Seq<Turn>,
    c: int,
)
    requires
        world.begun(name),
        world.run(schedule).created(c),
    ensures
        world.run(schedule).holds(world, c, name),
{
    lemma_run_keeps_true(world, name, schedule);
    assert(world.run(schedule).true_at(world, c, name));
}

/// Board uniqueness, at most once: let any number of requests begin to
/// create the board `name`, on any store, and let them take their turns in
/// any order, with any outcome of the generation of tokens. Then no two of
/// them are answered with a board created. A request that arrives late is
/// one whose first turn comes late.
pub proof fn lemma_board_is_created_at_most_once<S>(
    world: World<S>,
    name: Seq<char>,
    schedule: Seq<Turn>,
    a: int,
    b: int,
)
    requires
        world.begun(name),
        world.run(schedule).created(a),
        world.run(schedule).created(b),
    ensures
        a == b,
{
    lemma_begun_is_sound(world, name);
    lemma_run_keeps_sound(world, name, schedule);
}

/// Board uniqueness, exactly once: let one request or more begin to create
/// the board `name` on a store that holds none of its keys, and let them
/// take their turns in any order until all are answered, with no generation
/// of a token failing. Then exactly one request is answered with the board
/// created, and every other with a conflict; and the store holds the code
/// of the order that the winner asked for and the token that it was told.
pub proof fn lemma_board_is_created_exactly_once<S>(
    world: World<S>,
    name: Seq<char>,
    schedule: Seq<Turn>,
) -> (winner: int)
    requires
        world.begun(name),
        world.vacant(name),
        world.clients.len() >= 1,
        forall|t: int| 0 <= t < schedule.len() ==> (#[trigger] schedule[t]).generated is Ok,
        world.run(schedule).all_answered(),
    ensures
        world.run(schedule).clients.len() == world.clients.len(),
        world.run(schedule).created(winner),
        world.run(schedule).holds(world, winner, name),
        forall|c: int|
            0 <= c < world.clients.len() && c != winner ==> (#[trigger] world.run(
                schedule,
            ).clients[c]).refused(),
{
    lemma_begun_is_sound(world, name);
    lemma_run_keeps_true(world, name, schedule);
    lemma_run_keeps_sound(world, name, schedule);
    lemma_run_keeps_fair(world, name, schedule);
    let end = world.run(schedule);
    assert(end.clients[0].answered());
    if end.clients[0].created() {
        assert(end.created(0));
    } else {
        assert(end.clients[0].refused());
    }
    let winner = choose|c: int| end.created(c);
    assert(end.true_at(world, winner, name));
    assert forall|c: int| 0 <= c < world.clients.len() && c != winner implies (
    #[trigger] end.clients[c]).refused() by {
        assert(end.clients[c].answered());
        if end.clients[c].created() {
            assert(end.created(c));
        }
    }
    winner
}

} // verus!
