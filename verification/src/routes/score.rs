//! The requests on `/score/`: submitting a score and asking for one.

use vstd::prelude::*;
use crate::keys::order_key;
use crate::keys::scores_key;
use crate::keys::spec_order_key;
use crate::keys::spec_scores_key;
use crate::keys::spec_token_key;
use crate::keys::token_key;
use crate::outcome::Data;
use crate::outcome::DataView;
use crate::outcome::Failure;
use crate::outcome::RouteScoreResponse;
use crate::outcome::StatusCode;
use crate::outcome::Success;
use crate::outcome::SuccessView;
use crate::shortcuts::redis::rank_command;
use crate::shortcuts::redis::Command;
use crate::shortcuts::redis::Reply;
use crate::shortcuts::redis::Step;
use crate::shortcuts::redis::StepView;
use crate::shortcuts::redis::StoreCommand;
use crate::shortcuts::redis::StoreReply;
use crate::shortcuts::token::spec_get_authorization;
use crate::shortcuts::token::Authorize;
use crate::shortcuts::token::Headers;
use crate::utils::kebab::kebab_lowercase;
use crate::utils::kebab::Skewer;
use crate::utils::sorting::SortingOrder;

verus! {

/// Query parameters for `/score/` routes.
#[derive(Clone, Debug)]
pub struct RouteScoreQuery {
    /// The board to access.
    pub board: String,
    /// The name of the player to access the score of.
    pub player: String,
}

/// The rank that the store reported, if it is one: not negative, and no
/// greater than the machine counts.
pub open spec fn spec_rank(n: i64) -> Option<usize> {
    if 0 <= n <= usize::MAX {
        Some(n as usize)
    } else {
        None
    }
}

/// The rank that the store reported, if it is one.
pub fn rank_of(n: i64) -> (rank: Option<usize>)
    ensures
        rank == spec_rank(n),
{
    if n < 0 {
        None
    } else if n as u64 > usize::MAX as u64 {
        None
    } else {
        Some(n as usize)
    }
}

/// How far the submission of a score has come.
#[derive(Clone, Debug, PartialEq)]
pub enum ScorePutStage<S> {
    /// Waiting for the connection, holding the score that was submitted.
    Connecting(S),
    /// Waiting for the token of the board.
    ReadingToken(S),
    /// Waiting for the sorting order of the board.
    ReadingOrder(S),
    /// Waiting for the store to say whether it took the score.
    Adding(SortingOrder),
    /// Waiting for the score that the player has now; `true` if the store
    /// took the submitted one.
    ReadingScore(SortingOrder, bool),
    /// Waiting for the rank of the player, holding the score that the
    /// player has now.
    Ranking(bool, S),
}

/// The submission of a score, under way.
#[derive(Clone, Debug, PartialEq)]
pub struct ScorePut<S> {
    /// The canonical name of the board.
    pub board: String,
    /// The canonical name of the player.
    pub player: String,
    /// The token that came with the request.
    pub credential: String,
    pub stage: ScorePutStage<S>,
}

/// What a [`ScorePut`] says, with its strings as sequences of characters.
pub struct ScorePutView<S> {
    pub board: Seq<char>,
    pub player: Seq<char>,
    pub credential: Seq<char>,
    pub stage: ScorePutStage<S>,
}

impl<S> View for ScorePut<S> {
    type V = ScorePutView<S>;

    open spec fn view(&self) -> ScorePutView<S> {
        ScorePutView {
            board: self.board@,
            player: self.player@,
            credential: self.credential@,
            stage: self.stage,
        }
    }
}

impl<S> ScorePutView<S> {
    /// The same submission at another stage.
    pub open spec fn at(self, stage: ScorePutStage<S>) -> ScorePutView<S> {
        ScorePutView { stage, ..self }
    }

    /// What the submission does with a reply of the store.
    ///
    /// - No connection: the store is out of reach.
    /// - No token, or an empty one: the board does not exist, whatever the
    ///   credential. Another token than the credential: forbidden.
    /// - No sorting order, or a code that is none: the store is in a state
    ///   that the service never brings about.
    /// - The score goes to the store with the comparison mode of the order,
    ///   which lets it through only if it is strictly better; the store
    ///   counts the change.
    /// - The score that the player has now is read back, then the rank, in
    ///   the direction of the order.
    /// - The answer holds that score and rank, and says whether the
    ///   submitted score was taken as the new best or ignored.
    pub open spec fn next(self, reply: Reply<S>) -> StepView<ScorePutView<S>, S> {
        match self.stage {
            ScorePutStage::Connecting(score) => match reply.connection() {
                Some(failure) => StepView::Finish(Err(failure)),
                None => StepView::Send(
                    self.at(ScorePutStage::ReadingToken(score)),
                    Command::Get { key: spec_token_key(self.board) },
                ),
            },
            ScorePutStage::ReadingToken(score) => match reply {
                Reply::Nil => StepView::Finish(Err(Failure::NoSuchBoard)),
                Reply::Text(token) => if token.len() == 0 {
                    StepView::Finish(Err(Failure::NoSuchBoard))
                } else if token != self.credential {
                    StepView::Finish(Err(Failure::InvalidBoardToken))
                } else {
                    StepView::Send(
                        self.at(ScorePutStage::ReadingOrder(score)),
                        Command::Get { key: spec_order_key(self.board) },
                    )
                },
                _ => StepView::Finish(Err(reply.failure())),
            },
            ScorePutStage::ReadingOrder(score) => match reply {
                Reply::Text(code) => match SortingOrder::parse(code) {
                    Some(order) => StepView::Send(
                        self.at(ScorePutStage::Adding(order)),
                        Command::ZAdd {
                            key: spec_scores_key(self.board),
                            mode: order.spec_zadd_mode(),
                            player: self.player,
                            score,
                        },
                    ),
                    None => StepView::Finish(Err(Failure::StoreUnexpected)),
                },
                _ => StepView::Finish(Err(reply.failure())),
            },
            ScorePutStage::Adding(order) => match reply {
                Reply::Integer(changed) => StepView::Send(
                    self.at(ScorePutStage::ReadingScore(order, changed > 0)),
                    Command::ZScore { key: spec_scores_key(self.board), player: self.player },
                ),
                _ => StepView::Finish(Err(reply.failure())),
            },
            ScorePutStage::ReadingScore(order, changed) => match reply {
                Reply::Score(score) => StepView::Send(
                    self.at(ScorePutStage::Ranking(changed, score)),
                    Command::rank(order, spec_scores_key(self.board), self.player),
                ),
                _ => StepView::Finish(Err(reply.failure())),
            },
            ScorePutStage::Ranking(changed, score) => match reply {
                Reply::Integer(n) => match spec_rank(n) {
                    Some(rank) => StepView::Finish(
                        Ok(
                            SuccessView {
                                status: if changed {
                                    StatusCode::Created
                                } else {
                                    StatusCode::Okay
                                },
                                data: DataView::Score(RouteScoreResponse { score, rank }),
                            },
                        ),
                    ),
                    None => StepView::Finish(Err(Failure::StoreUnexpected)),
                },
                _ => StepView::Finish(Err(reply.failure())),
            },
        }
    }
}

/// How the submission of a score begins: with the credential read out of
/// the headers, and the names made canonical, it asks for a connection.
/// Without a credential it is answered at once.
pub open spec fn spec_route_score_put<S>(
    headers: Headers,
    board: Seq<char>,
    player: Seq<char>,
    score: S,
) -> StepView<ScorePutView<S>, S> {
    match spec_get_authorization(headers.authorization, "Bearer"@) {
        Err(failure) => StepView::Finish(Err(failure)),
        Ok(token) => StepView::Send(
            ScorePutView {
                board: kebab_lowercase(board),
                player: kebab_lowercase(player),
                credential: token,
                stage: ScorePutStage::Connecting(score),
            },
            Command::Connect,
        ),
    }
}

/// Handler for `PUT /score/`: begin the submission of `score` for a player
/// on a board. The score counts only if it is better than the one the
/// player has.
pub fn route_score_put<S>(headers: &Headers, query: RouteScoreQuery, score: S) -> (step: Step<
    ScorePut<S>,
    S,
>)
    ensures
        step@ == spec_route_score_put(*headers, query.board@, query.player@, score),
{
    let board = query.board.to_kebab_lowercase();
    let player = query.player.to_kebab_lowercase();
    match headers.get_authorization_or_401("Bearer") {
        Err(failure) => Step::Finish(Err(failure)),
        Ok(token) => Step::Send(
            ScorePut {
                board,
                player,
                credential: token.to_string(),
                stage: ScorePutStage::Connecting(score),
            },
            StoreCommand::Connect,
        ),
    }
}

impl<S> ScorePut<S> {
    /// Go on with the reply of the store to the command that was sent last.
    pub fn resume(self, reply: StoreReply<S>) -> (step: Step<ScorePut<S>, S>)
        ensures
            step@ == self@.next(reply@),
    {
        let ScorePut { board, player, credential, stage } = self;
        match stage {
            ScorePutStage::Connecting(score) => match reply.get_connection_or_504() {
                Err(failure) => Step::Finish(Err(failure)),
                Ok(()) => {
                    let key = token_key(board.as_str());
                    Step::Send(
                        ScorePut { board, player, credential, stage: ScorePutStage::ReadingToken(score) },
                        StoreCommand::Get { key },
                    )
                },
            },
            ScorePutStage::ReadingToken(score) => match reply {
                StoreReply::Nil => Step::Finish(Err(Failure::NoSuchBoard)),
                StoreReply::Text(token) => {
                    if token.as_str().is_empty() {
                        Step::Finish(Err(Failure::NoSuchBoard))
                    } else if token != credential {
                        Step::Finish(Err(Failure::InvalidBoardToken))
                    } else {
                        let key = order_key(board.as_str());
                        Step::Send(
                            ScorePut {
                                board,
                                player,
                                credential,
                                stage: ScorePutStage::ReadingOrder(score),
                            },
                            StoreCommand::Get { key },
                        )
                    }
                },
                other => Step::Finish(Err(other.failure())),
            },
            ScorePutStage::ReadingOrder(score) => match reply {
                StoreReply::Text(code) => match SortingOrder::try_from(code.as_str()) {
                    Ok(order) => {
                        let key = scores_key(board.as_str());
                        let member = player.clone();
                        Step::Send(
                            ScorePut { board, player, credential, stage: ScorePutStage::Adding(order) },
                            StoreCommand::ZAdd { key, mode: order.zadd_mode(), player: member, score },
                        )
                    },
                    Err(_) => Step::Finish(Err(crate::outcome::redis_unexpected_behaviour())),
                },
                other => Step::Finish(Err(other.failure())),
            },
            ScorePutStage::Adding(order) => match reply {
                StoreReply::Integer(changed) => {
                    let key = scores_key(board.as_str());
                    let member = player.clone();
                    Step::Send(
                        ScorePut {
                            board,
                            player,
                            credential,
                            stage: ScorePutStage::ReadingScore(order, changed > 0),
                        },
                        StoreCommand::ZScore { key, player: member },
                    )
                },
                other => Step::Finish(Err(other.failure())),
            },
            ScorePutStage::ReadingScore(order, changed) => match reply {
                StoreReply::Score(score) => {
                    let key = scores_key(board.as_str());
                    let member = player.clone();
                    Step::Send(
                        ScorePut {
                            board,
                            player,
                            credential,
                            stage: ScorePutStage::Ranking(changed, score),
                        },
                        rank_command(order, key, member),
                    )
                },
                other => Step::Finish(Err(other.failure())),
            },
            ScorePutStage::Ranking(changed, score) => match reply {
                StoreReply::Integer(n) => match rank_of(n) {
                    Some(rank) => Step::Finish(
                        Ok(
                            Success {
                                status: if changed {
                                    StatusCode::Created
                                } else {
                                    StatusCode::Okay
                                },
                                data: Data::Score(RouteScoreResponse { score, rank }),
                            },
                        ),
                    ),
                    None => Step::Finish(Err(crate::outcome::redis_unexpected_behaviour())),
                },
                other => Step::Finish(Err(other.failure())),
            },
        }
    }
}

/// How far a question for a score has come.
#[derive(Clone, Debug, PartialEq)]
pub enum ScoreGetStage<S> {
    /// Waiting for the connection.
    Connecting,
    /// Waiting for the score of the player.
    ReadingScore,
    /// Waiting for the sorting order of the board, holding the score.
    ReadingOrder(S),
    /// Waiting for the rank of the player, holding the score.
    Ranking(S),
}

/// A question for the score and the rank of a player, under way.
#[derive(Clone, Debug, PartialEq)]
pub struct ScoreGet<S> {
    /// The canonical name of the board.
    pub board: String,
    /// The canonical name of the player.
    pub player: String,
    pub stage: ScoreGetStage<S>,
}

/// What a [`ScoreGet`] says, with its strings as sequences of characters.
pub struct ScoreGetView<S> {
    pub board: Seq<char>,
    pub player: Seq<char>,
    pub stage: ScoreGetStage<S>,
}

impl<S> View for ScoreGet<S> {
    type V = ScoreGetView<S>;

    open spec fn view(&self) -> ScoreGetView<S> {
        ScoreGetView { board: self.board@, player: self.player@, stage: self.stage }
    }
}

impl<S> ScoreGetView<S> {
    /// The same question at another stage.
    pub open spec fn at(self, stage: ScoreGetStage<S>) -> ScoreGetView<S> {
        ScoreGetView { stage, ..self }
    }

    /// What the question does with a reply of the store.
    ///
    /// - No connection: the store is out of reach.
    /// - No score: the player has no entry, which is no error of the store.
    /// - No sorting order, or a code that is none: the store is in a state
    ///   that the service never brings about.
    /// - The rank is asked for in the direction of the order.
    pub open spec fn next(self, reply: Reply<S>) -> StepView<ScoreGetView<S>, S> {
        match self.stage {
            ScoreGetStage::Connecting => match reply.connection() {
                Some(failure) => StepView::Finish(Err(failure)),
                None => StepView::Send(
                    self.at(ScoreGetStage::ReadingScore),
                    Command::ZScore { key: spec_scores_key(self.board), player: self.player },
                ),
            },
            ScoreGetStage::ReadingScore => match reply {
                Reply::Nil => StepView::Finish(Err(Failure::NoSuchScore)),
                Reply::Score(score) => StepView::Send(
                    self.at(ScoreGetStage::ReadingOrder(score)),
                    Command::Get { key: spec_order_key(self.board) },
                ),
                _ => StepView::Finish(Err(reply.failure())),
            },
            ScoreGetStage::ReadingOrder(score) => match reply {
                Reply::Text(code) => match SortingOrder::parse(code) {
                    Some(order) => StepView::Send(
                        self.at(ScoreGetStage::Ranking(score)),
                        Command::rank(order, spec_scores_key(self.board), self.player),
                    ),
                    None => StepView::Finish(Err(Failure::StoreUnexpected)),
                },
                _ => StepView::Finish(Err(reply.failure())),
            },
            ScoreGetStage::Ranking(score) => match reply {
                Reply::Integer(n) => match spec_rank(n) {
                    Some(rank) => StepView::Finish(
                        Ok(
                            SuccessView {
                                status: StatusCode::Okay,
                                data: DataView::Score(RouteScoreResponse { score, rank }),
                            },
                        ),
                    ),
                    None => StepView::Finish(Err(Failure::StoreUnexpected)),
                },
                _ => StepView::Finish(Err(reply.failure())),
            },
        }
    }
}

/// How a question for a score begins: with the names made canonical, it
/// asks for a connection. No credential is needed.
pub open spec fn spec_route_score_get<S>(board: Seq<char>, player: Seq<char>) -> StepView<
    ScoreGetView<S>,
    S,
> {
    StepView::Send(
        ScoreGetView {
            board: kebab_lowercase(board),
            player: kebab_lowercase(player),
            stage: ScoreGetStage::Connecting,
        },
        Command::Connect,
    )
}

/// Handler for `GET /score/`: begin the question for the score and the rank
/// of a player on a board.
pub fn route_score_get<S>(query: RouteScoreQuery) -> (step: Step<ScoreGet<S>, S>)
    ensures
        step@ == spec_route_score_get::<S>(query.board@, query.player@),
{
    let board = query.board.to_kebab_lowercase();
    let player = query.player.to_kebab_lowercase();
    Step::Send(ScoreGet { board, player, stage: ScoreGetStage::Connecting }, StoreCommand::Connect)
}

impl<S> ScoreGet<S> {
    /// Go on with the reply of the store to the command that was sent last.
    pub fn resume(self, reply: StoreReply<S>) -> (step: Step<ScoreGet<S>, S>)
        ensures
            step@ == self@.next(reply@),
    {
        let ScoreGet { board, player, stage } = self;
        match stage {
            ScoreGetStage::Connecting => match reply.get_connection_or_504() {
                Err(failure) => Step::Finish(Err(failure)),
                Ok(()) => {
                    let key = scores_key(board.as_str());
                    let member = player.clone();
                    Step::Send(
                        ScoreGet { board, player, stage: ScoreGetStage::ReadingScore },
                        StoreCommand::ZScore { key, player: member },
                    )
                },
            },
            ScoreGetStage::ReadingScore => match reply {
                StoreReply::Nil => Step::Finish(Err(Failure::NoSuchScore)),
                StoreReply::Score(score) => {
                    let key = order_key(board.as_str());
                    Step::Send(
                        ScoreGet { board, player, stage: ScoreGetStage::ReadingOrder(score) },
                        StoreCommand::Get { key },
                    )
                },
                other => Step::Finish(Err(other.failure())),
            },
            ScoreGetStage::ReadingOrder(score) => match reply {
                StoreReply::Text(code) => match SortingOrder::try_from(code.as_str()) {
                    Ok(order) => {
                        let key = scores_key(board.as_str());
                        let member = player.clone();
                        Step::Send(
                            ScoreGet { board, player, stage: ScoreGetStage::Ranking(score) },
                            rank_command(order, key, member),
                        )
                    },
                    Err(_) => Step::Finish(Err(crate::outcome::redis_unexpected_behaviour())),
                },
                other => Step::Finish(Err(other.failure())),
            },
            ScoreGetStage::Ranking(score) => match reply {
                StoreReply::Integer(n) => match rank_of(n) {
                    Some(rank) => Step::Finish(
                        Ok(
                            Success {
                                status: StatusCode::Okay,
                                data: Data::Score(RouteScoreResponse { score, rank }),
                            },
                        ),
                    ),
                    None => Step::Finish(Err(crate::outcome::redis_unexpected_behaviour())),
                },
                other => Step::Finish(Err(other.failure())),
            },
        }
    }
}

/// Authorization separation, first part: a request without a credential of
/// the right form is answered as unauthorized, before the store is asked for
/// anything.
pub proof fn lemma_garbled_credential_is_unauthorized<S>(
    headers: Headers,
    board: Seq<char>,
    player: Seq<char>,
    score: S,
)
    requires
        spec_get_authorization(headers.authorization, "Bearer"@) is Err,
    ensures
        spec_route_score_put(headers, board, player, score) matches StepView::Finish(Err(failure))
            && failure.spec_status() == StatusCode::Unauthorized,
{
}

/// Authorization separation, second part: with a credential of the right
/// form, the request asks for a connection and then for the token of the
/// board. If the board has none, the request is answered as not found,
/// whatever the credential; if the board has another token than the
/// credential, the request is answered as forbidden; with the token of the
/// board it goes on.
pub proof fn lemma_authorization_separation<S>(
    headers: Headers,
    board: Seq<char>,
    player: Seq<char>,
    score: S,
    stored: Seq<char>,
)
    requires
        spec_get_authorization(headers.authorization, "Bearer"@) is Ok,
    ensures
        ({
            let credential = spec_get_authorization(headers.authorization, "Bearer"@)->Ok_0;
            let begun = spec_route_score_put(headers, board, player, score);
            &&& begun matches StepView::Send(connecting, command)
            &&& command == Command::<S>::Connect
            &&& connecting.next(Reply::Done) matches StepView::Send(reading, question)
            &&& question == Command::<S>::Get { key: spec_token_key(kebab_lowercase(board)) }
            &&& reading.next(Reply::Nil) matches StepView::Finish(Err(absent))
            &&& absent.spec_status() == StatusCode::NotFound
            &&& stored.len() == 0 ==> reading.next(Reply::Text(stored)) == reading.next(Reply::Nil)
            &&& stored.len() > 0 && stored != credential ==> (reading.next(Reply::Text(stored))
                matches StepView::Finish(Err(wrong)) && wrong.spec_status()
                == StatusCode::Forbidden)
            &&& stored.len() > 0 && stored == credential ==> reading.next(Reply::Text(stored))
                is Send
        }),
{
}

/// The submission of a score never answers with a token.
pub proof fn lemma_score_put_answers_no_token<S>(request: ScorePutView<S>, reply: Reply<S>)
    ensures
        request.next(reply) matches StepView::Finish(Ok(success)) ==> success.data is Score,
{
}

} // verus!
