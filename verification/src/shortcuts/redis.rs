//! The store seen from the engine: the commands that a request sends to it
//! and the replies that come back. The engine decides; whoever holds the
//! connection sends each command and hands back the reply.

use vstd::prelude::*;
use vstd::std_specs::convert::FromSpecImpl;
use crate::outcome::Failure;
use crate::outcome::Success;
use crate::outcome::SuccessView;
use crate::outcome::result_view;
use crate::utils::sorting::SortingOrder;

verus! {

/// A score set by a player. The engine never looks into a score: `S` is
/// whatever the caller counts scores in.
#[derive(Clone, Debug, PartialEq)]
pub struct ScoreObject<S> {
    /// The name of the player who set the score.
    pub name: String,
    /// The score that the player set.
    pub score: S,
}

impl<S> From<(String, S)> for ScoreObject<S> {
    fn from(t: (String, S)) -> (object: ScoreObject<S>)
        ensures
            object.name == t.0,
            object.score == t.1,
    {
        ScoreObject { name: t.0, score: t.1 }
    }
}

impl<S> FromSpecImpl<(String, S)> for ScoreObject<S> {
    open spec fn obeys_from_spec() -> bool {
        true
    }

    open spec fn from_spec(t: (String, S)) -> ScoreObject<S> {
        ScoreObject { name: t.0, score: t.1 }
    }
}

/// A command for the store.
#[derive(Clone, Debug, PartialEq)]
pub enum StoreCommand<S> {
    /// Open a connection.
    Connect,
    /// `PING`.
    Ping,
    /// `WATCH` the three keys of a board: a transaction that follows is
    /// given up if one of them changes before it is executed.
    Watch { order_key: String, token_key: String, scores_key: String },
    /// `TYPE`: what kind of value the key holds, `none` if it holds nothing.
    KeyType { key: String },
    /// `MULTI`: open a transaction.
    Multi,
    /// `SET` the key to a value.
    SetKey { key: String, value: String },
    /// `EXEC`: execute the transaction.
    Exec,
    /// `GET` the value at the key.
    Get { key: String },
    /// `ZADD` with a comparison mode and `CH`: set the score of the player
    /// if the mode lets it through, and count the change.
    ZAdd { key: String, mode: String, player: String, score: S },
    /// `ZSCORE`: the score of the player.
    ZScore { key: String, player: String },
    /// `ZRANK`: the rank of the player, counted from the least score up.
    ZRank { key: String, player: String },
    /// `ZREVRANK`: the rank of the player, counted from the greatest score
    /// down.
    ZRevRank { key: String, player: String },
    /// `ZRANGE` with `WITHSCORES`, and with `REV` if `reversed`: the players
    /// from rank `start` to rank `stop`.
    ZRange { key: String, start: usize, stop: usize, reversed: bool },
}

/// What a [`StoreCommand`] says, with its strings as sequences of characters.
pub enum Command<S> {
    Connect,
    Ping,
    Watch { order_key: Seq<char>, token_key: Seq<char>, scores_key: Seq<char> },
    KeyType { key: Seq<char> },
    Multi,
    SetKey { key: Seq<char>, value: Seq<char> },
    Exec,
    Get { key: Seq<char> },
    ZAdd { key: Seq<char>, mode: Seq<char>, player: Seq<char>, score: S },
    ZScore { key: Seq<char>, player: Seq<char> },
    ZRank { key: Seq<char>, player: Seq<char> },
    ZRevRank { key: Seq<char>, player: Seq<char> },
    ZRange { key: Seq<char>, start: usize, stop: usize, reversed: bool },
}

impl<S> View for StoreCommand<S> {
    type V = Command<S>;

    open spec fn view(&self) -> Command<S> {
        match *self {
            StoreCommand::Connect => Command::Connect,
            StoreCommand::Ping => Command::Ping,
            StoreCommand::Watch { order_key, token_key, scores_key } => Command::Watch {
                order_key: order_key@,
                token_key: token_key@,
                scores_key: scores_key@,
            },
            StoreCommand::KeyType { key } => Command::KeyType { key: key@ },
            StoreCommand::Multi => Command::Multi,
            StoreCommand::SetKey { key, value } => Command::SetKey { key: key@, value: value@ },
            StoreCommand::Exec => Command::Exec,
            StoreCommand::Get { key } => Command::Get { key: key@ },
            StoreCommand::ZAdd { key, mode, player, score } => Command::ZAdd {
                key: key@,
                mode: mode@,
                player: player@,
                score,
            },
            StoreCommand::ZScore { key, player } => Command::ZScore { key: key@, player: player@ },
            StoreCommand::ZRank { key, player } => Command::ZRank { key: key@, player: player@ },
            StoreCommand::ZRevRank { key, player } => Command::ZRevRank {
                key: key@,
                player: player@,
            },
            StoreCommand::ZRange { key, start, stop, reversed } => Command::ZRange {
                key: key@,
                start,
                stop,
                reversed,
            },
        }
    }
}

impl<S> Command<S> {
    /// Whether the command names `key`.
    pub open spec fn names(self, key: Seq<char>) -> bool {
        match self {
            Command::Connect => false,
            Command::Ping => false,
            Command::Watch { order_key, token_key, scores_key } => key == order_key || key
                == token_key || key == scores_key,
            Command::KeyType { key: k } => key == k,
            Command::Multi => false,
            Command::SetKey { key: k, .. } => key == k,
            Command::Exec => false,
            Command::Get { key: k } => key == k,
            Command::ZAdd { key: k, .. } => key == k,
            Command::ZScore { key: k, .. } => key == k,
            Command::ZRank { key: k, .. } => key == k,
            Command::ZRevRank { key: k, .. } => key == k,
            Command::ZRange { key: k, .. } => key == k,
        }
    }

    /// The command that asks for the rank of `player` among the scores at
    /// `key`, in the direction of `order`.
    pub open spec fn rank(order: SortingOrder, key: Seq<char>, player: Seq<char>) -> Command<S> {
        match order {
            SortingOrder::Ascending => Command::ZRank { key, player },
            SortingOrder::Descending => Command::ZRevRank { key, player },
        }
    }
}

/// What the store answered to a command.
#[derive(Clone, Debug, PartialEq)]
pub enum StoreReply<S> {
    /// The store could not be reached, or did not answer in time.
    Unreachable,
    /// The store answered that the command failed.
    Failed,
    /// Done, with nothing to report: the connection stands, the keys are
    /// watched, the command is queued, the transaction is executed.
    Done,
    /// Nothing is there: no value at the key, no score for the player, or a
    /// transaction that was given up.
    Nil,
    /// A string.
    Text(String),
    /// An integer: a count or a rank.
    Integer(i64),
    /// A score.
    Score(S),
    /// Players with their scores, in the order asked for.
    Scores(Vec<ScoreObject<S>>),
}

/// What a [`StoreReply`] says, with its strings as sequences of characters.
pub enum Reply<S> {
    Unreachable,
    Failed,
    Done,
    Nil,
    Text(Seq<char>),
    Integer(i64),
    Score(S),
    Scores(Seq<ScoreObject<S>>),
}

impl<S> View for StoreReply<S> {
    type V = Reply<S>;

    open spec fn view(&self) -> Reply<S> {
        match *self {
            StoreReply::Unreachable => Reply::Unreachable,
            StoreReply::Failed => Reply::Failed,
            StoreReply::Done => Reply::Done,
            StoreReply::Nil => Reply::Nil,
            StoreReply::Text(text) => Reply::Text(text@),
            StoreReply::Integer(n) => Reply::Integer(n),
            StoreReply::Score(score) => Reply::Score(score),
            StoreReply::Scores(scores) => Reply::Scores(scores@),
        }
    }
}

impl<S> Reply<S> {
    /// The failure that a reply amounts to where it is not the reply that
    /// the request was waiting for.
    pub open spec fn failure(self) -> Failure {
        match self {
            Reply::Unreachable => Failure::StoreUnreachable,
            Reply::Failed => Failure::StoreCommandFailed,
            _ => Failure::StoreUnexpected,
        }
    }

    /// What the request for a connection ends in: nothing if it stands,
    /// else the failure.
    pub open spec fn connection(self) -> Option<Failure> {
        match self {
            Reply::Done => None,
            _ => Some(Failure::StoreUnreachable),
        }
    }
}

impl<S> StoreReply<S> {
    /// The failure that the reply amounts to where it is not the reply that
    /// the request was waiting for: a store out of reach, a failed command,
    /// or an answer that the service does not expect.
    pub fn failure(&self) -> (failure: Failure)
        ensures
            failure == self@.failure(),
    {
        match self {
            StoreReply::Unreachable => Failure::StoreUnreachable,
            StoreReply::Failed => crate::outcome::redis_cmd_failed(),
            _ => crate::outcome::redis_unexpected_behaviour(),
        }
    }

    /// Whether the connection stands: every other answer to
    /// [`StoreCommand::Connect`] means that the store cannot be reached.
    pub fn get_connection_or_504(&self) -> (connection: Result<(), Failure>)
        ensures
            connection == match self@.connection() {
                None => Ok::<(), Failure>(()),
                Some(failure) => Err::<(), Failure>(failure),
            },
    {
        match self {
            StoreReply::Done => Ok(()),
            _ => Err(Failure::StoreUnreachable),
        }
    }
}

/// The command that asks for the rank of `player` among the scores at `key`,
/// in the direction of `order`.
pub fn rank_command<S>(order: SortingOrder, key: String, player: String) -> (command:
    StoreCommand<S>)
    ensures
        command@ == Command::<S>::rank(order, key@, player@),
{
    match order {
        SortingOrder::Ascending => StoreCommand::ZRank { key, player },
        SortingOrder::Descending => StoreCommand::ZRevRank { key, player },
    }
}

/// What the engine wants next.
#[derive(Debug, PartialEq)]
pub enum Step<T, S> {
    /// Send the command to the store, then resume the request with the reply.
    Send(T, StoreCommand<S>),
    /// The request is answered.
    Finish(Result<Success<S>, Failure>),
}

/// What a [`Step`] says, with its strings as sequences of characters.
pub enum StepView<T, S> {
    Send(T, Command<S>),
    Finish(Result<SuccessView<S>, Failure>),
}

impl<T: View, S> View for Step<T, S> {
    type V = StepView<T::V, S>;

    open spec fn view(&self) -> StepView<T::V, S> {
        match *self {
            Step::Send(request, command) => StepView::Send(request@, command@),
            Step::Finish(result) => StepView::Finish(result_view(result)),
        }
    }
}

} // verus!
