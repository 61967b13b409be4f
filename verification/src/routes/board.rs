//! The requests on `/board/`: creating a board and listing its scores.

use vstd::prelude::*;
use crate::config::Config;
use crate::config::ConfigView;
use crate::keys::order_key;
use crate::keys::scores_key;
use crate::keys::spec_order_key;
use crate::keys::spec_scores_key;
use crate::keys::spec_token_key;
use crate::keys::token_key;
use crate::outcome::Data;
use crate::outcome::DataView;
use crate::outcome::Failure;
use crate::outcome::StatusCode;
use crate::outcome::Success;
use crate::outcome::SuccessView;
use crate::shortcuts::redis::Command;
use crate::shortcuts::redis::Reply;
use crate::shortcuts::redis::ScoreObject;
use crate::shortcuts::redis::Step;
use crate::shortcuts::redis::StepView;
use crate::shortcuts::redis::StoreCommand;
use crate::shortcuts::redis::StoreReply;
use crate::shortcuts::token::spec_get_authorization;
use crate::shortcuts::token::Authorize;
use crate::shortcuts::token::Generate;
use crate::shortcuts::token::Headers;
use crate::utils::kebab::kebab_lowercase;
use crate::utils::kebab::Skewer;
use crate::utils::strings::str_eq;
use crate::utils::sorting::SortingOrder;
use crate::utils::token::is_token;
use crate::utils::token::SecureToken;

verus! {

/// How many scores one page may ask for at most.
pub const MAX_PAGE_SIZE: usize = 500;

/// Expected body for `POST /board/`.
#[derive(Clone, Debug)]
pub struct RouteBoardBody {
    /// The name of the board to create.
    pub name: String,
    /// The sorting order of the scores in the board to create.
    pub order: SortingOrder,
}

/// Expected query params for `GET /board/`.
#[derive(Clone, Debug)]
pub struct RouteBoardQuery {
    /// The name of the board to access.
    pub board: String,
    /// The offset to start returning scores from.
    pub offset: usize,
    /// How many scores to return.
    pub size: usize,
}

/// What the answer of the store to `TYPE` says of a key: nothing is wrong
/// if the key holds nothing; a key that holds anything means that the
/// board exists already.
pub open spec fn spec_ensure_key_is_empty<S>(reply: Reply<S>) -> Result<(), Failure> {
    match reply {
        Reply::Text(kind) => if kind == "none"@ {
            Ok(())
        } else {
            Err(Failure::BoardExists)
        },
        _ => Err(reply.failure()),
    }
}

/// Ensure that there is nothing stored at a key, going by the answer of the
/// store to `TYPE`.
pub fn ensure_key_is_empty<S>(reply: &StoreReply<S>) -> (empty: Result<(), Failure>)
    ensures
        empty == spec_ensure_key_is_empty(reply@),
{
    match reply {
        StoreReply::Text(kind) => {
            if str_eq(kind.as_str(), "none") {
                Ok(())
            } else {
                Err(Failure::BoardExists)
            }
        },
        other => Err(other.failure()),
    }
}

/// How far the creation of a board has come.
#[derive(Copy, Clone, Debug, PartialEq, Eq, Structural)]
pub enum BoardPostStage {
    /// Waiting for the connection.
    Connecting,
    /// Waiting for the three keys to be watched.
    Watching,
    /// Waiting to learn whether the key of the order holds anything.
    CheckingOrder,
    /// Waiting to learn whether the key of the token holds anything.
    CheckingToken,
    /// Waiting to learn whether the key of the scores holds anything.
    CheckingScores,
    /// Waiting for the transaction to open.
    Opening,
    /// Waiting for the order to be queued.
    QueuingOrder,
    /// Waiting for the token to be queued.
    QueuingToken,
    /// Waiting for the transaction to be executed.
    Executing,
}

/// The creation of a board, under way.
#[derive(Clone, Debug, PartialEq)]
pub struct BoardPost {
    /// The canonical name of the board.
    pub board: String,
    /// The sorting order of the board.
    pub order: SortingOrder,
    /// The token of the board: empty until it is generated.
    pub token: String,
    pub stage: BoardPostStage,
}

/// What a [`BoardPost`] says, with its strings as sequences of characters.
pub struct BoardPostView {
    pub board: Seq<char>,
    pub order: SortingOrder,
    pub token: Seq<char>,
    pub stage: BoardPostStage,
}

impl View for BoardPost {
    type V = BoardPostView;

    open spec fn view(&self) -> BoardPostView {
        BoardPostView {
            board: self.board@,
            order: self.order,
            token: self.token@,
            stage: self.stage,
        }
    }
}

/// What the generation of a token may end in: a token of the right form, or
/// the failure that says that none could be generated.
pub open spec fn is_generated(generated: Result<Seq<char>, Failure>) -> bool {
    match generated {
        Ok(token) => is_token(token),
        Err(failure) => failure == Failure::TokenGeneration,
    }
}

/// The characters of a token that was generated, or the failure.
pub open spec fn generated_view(generated: Result<SecureToken, Failure>) -> Result<
    Seq<char>,
    Failure,
> {
    match generated {
        Ok(token) => Ok(token@),
        Err(failure) => Err(failure),
    }
}

impl BoardPostView {
    /// The same creation at another stage.
    pub open spec fn at(self, stage: BoardPostStage) -> BoardPostView {
        BoardPostView { stage, ..self }
    }

    /// What the creation does once a key was found empty: go on to `stage`
    /// with `command`, or end in a conflict if the key holds anything.
    pub open spec fn checked<S>(self, reply: Reply<S>, stage: BoardPostStage, command: Command<S>)
        -> StepView<BoardPostView, S> {
        match spec_ensure_key_is_empty(reply) {
            Ok(_) => StepView::Send(self.at(stage), command),
            Err(failure) => StepView::Finish(Err(failure)),
        }
    }

    /// What the creation does once a command was acknowledged: go on to
    /// `stage` with `command`.
    pub open spec fn acknowledged<S>(
        self,
        reply: Reply<S>,
        stage: BoardPostStage,
        command: Command<S>,
    ) -> StepView<BoardPostView, S> {
        match reply {
            Reply::Done => StepView::Send(self.at(stage), command),
            _ => StepView::Finish(Err(reply.failure())),
        }
    }

    /// What the creation does once the transaction is open: with a token, it
    /// queues the order of the board; without one it ends.
    pub open spec fn opened<S>(self, generated: Result<Seq<char>, Failure>) -> StepView<
        BoardPostView,
        S,
    > {
        match generated {
            Ok(token) => StepView::Send(
                BoardPostView { token, stage: BoardPostStage::QueuingOrder, ..self },
                Command::SetKey { key: spec_order_key(self.board), value: self.order.code() },
            ),
            Err(failure) => StepView::Finish(Err(failure)),
        }
    }

    /// What the creation does with a reply of the store. `generated` is what
    /// the generation of the token ends in; it is asked for once, when the
    /// transaction has been opened.
    ///
    /// - No connection: the store is out of reach.
    /// - The three keys of the board are watched, then each is checked: a
    ///   key that holds anything means that the board exists.
    /// - The transaction is opened, the token is generated, the order and
    ///   the token are queued. The key of the scores stays empty.
    /// - The transaction is executed. If the store gave it up, because a
    ///   watched key changed in between, another request has created the
    ///   board: a conflict. Else the board is created, and the answer holds
    ///   its token.
    pub open spec fn next<S>(self, reply: Reply<S>, generated: Result<Seq<char>, Failure>)
        -> StepView<BoardPostView, S> {
        match self.stage {
            BoardPostStage::Connecting => match reply.connection() {
                Some(failure) => StepView::Finish(Err(failure)),
                None => StepView::Send(
                    self.at(BoardPostStage::Watching),
                    Command::Watch {
                        order_key: spec_order_key(self.board),
                        token_key: spec_token_key(self.board),
                        scores_key: spec_scores_key(self.board),
                    },
                ),
            },
            BoardPostStage::Watching => self.acknowledged(
                reply,
                BoardPostStage::CheckingOrder,
                Command::KeyType { key: spec_order_key(self.board) },
            ),
            BoardPostStage::CheckingOrder => self.checked(
                reply,
                BoardPostStage::CheckingToken,
                Command::KeyType { key: spec_token_key(self.board) },
            ),
            BoardPostStage::CheckingToken => self.checked(
                reply,
                BoardPostStage::CheckingScores,
                Command::KeyType { key: spec_scores_key(self.board) },
            ),
            BoardPostStage::CheckingScores => self.checked(
                reply,
                BoardPostStage::Opening,
                Command::Multi,
            ),
            BoardPostStage::Opening => match reply {
                Reply::Done => self.opened(generated),
                _ => StepView::Finish(Err(reply.failure())),
            },
            BoardPostStage::QueuingOrder => self.acknowledged(
                reply,
                BoardPostStage::QueuingToken,
                Command::SetKey { key: spec_token_key(self.board), value: self.token },
            ),
            BoardPostStage::QueuingToken => self.acknowledged(
                reply,
                BoardPostStage::Executing,
                Command::Exec,
            ),
            BoardPostStage::Executing => match reply {
                Reply::Done => StepView::Finish(
                    Ok(
                        SuccessView {
                            status: StatusCode::Created,
                            data: DataView::Token(self.token),
                        },
                    ),
                ),
                Reply::Nil => StepView::Finish(Err(Failure::BoardExists)),
                _ => StepView::Finish(Err(reply.failure())),
            },
        }
    }
}

/// Whether a request may create a board: under a configuration that asks
/// for a token, the request has to bring that token.
pub open spec fn spec_may_create(config: ConfigView, headers: Headers) -> Result<(), Failure> {
    match config.create_token {
        None => Ok(()),
        Some(expected) => match spec_get_authorization(headers.authorization, "Bearer"@) {
            Err(failure) => Err(failure),
            Ok(token) => if token == expected {
                Ok(())
            } else {
                Err(Failure::InvalidCreateToken)
            },
        },
    }
}

/// How the creation of a board begins: if the request may create boards,
/// it asks for a connection, with the name made canonical. Else it is
/// answered at once.
pub open spec fn spec_route_board_post<S>(
    config: ConfigView,
    headers: Headers,
    name: Seq<char>,
    order: SortingOrder,
) -> StepView<BoardPostView, S> {
    match spec_may_create(config, headers) {
        Err(failure) => StepView::Finish(Err(failure)),
        Ok(_) => StepView::Send(
            BoardPostView {
                board: kebab_lowercase(name),
                order,
                token: Seq::empty(),
                stage: BoardPostStage::Connecting,
            },
            Command::Connect,
        ),
    }
}

/// Whether a request may create a board.
pub fn may_create(config: &Config, headers: &Headers) -> (allowed: Result<(), Failure>)
    ensures
        allowed == spec_may_create(config@, *headers),
{
    match &config.create_token {
        None => Ok(()),
        Some(expected) => match headers.get_authorization_or_401("Bearer") {
            Err(failure) => Err(failure),
            Ok(token) => {
                if str_eq(token, expected.as_str()) {
                    Ok(())
                } else {
                    Err(Failure::InvalidCreateToken)
                }
            },
        },
    }
}

/// Handler for `POST /board/`: begin the creation of a board.
pub fn route_board_post<S>(config: &Config, headers: &Headers, body: RouteBoardBody) -> (step:
    Step<BoardPost, S>)
    ensures
        step@ == spec_route_board_post::<S>(config@, *headers, body.name@, body.order),
{
    match may_create(config, headers) {
        Err(failure) => Step::Finish(Err(failure)),
        Ok(()) => {
            let board = body.name.to_kebab_lowercase();
            Step::Send(
                BoardPost {
                    board,
                    order: body.order,
                    token: String::new(),
                    stage: BoardPostStage::Connecting,
                },
                StoreCommand::Connect,
            )
        },
    }
}

impl BoardPost {
    /// The same creation at another stage.
    fn at(self, stage: BoardPostStage) -> (moved: BoardPost)
        ensures
            moved@ == self@.at(stage),
    {
        BoardPost { board: self.board, order: self.order, token: self.token, stage }
    }

    /// Go on with the reply of the store to the command that was sent last.
    /// When the transaction has been opened, the token of the board is
    /// generated.
    pub fn resume<S>(self, reply: StoreReply<S>) -> (step: Step<BoardPost, S>)
        ensures
            exists|generated: Result<Seq<char>, Failure>|
                is_generated(generated) && step@ == #[trigger] self@.next(reply@, generated),
    {
        let opening = match (&self.stage, &reply) {
            (BoardPostStage::Opening, StoreReply::Done) => true,
            _ => false,
        };
        let generated = if opening {
            SecureToken::new_or_500()
        } else {
            Err(Failure::TokenGeneration)
        };
        let ghost witness = generated_view(generated);
        let step = self.resume_with(reply, generated);
        assert(step@ == self@.next(reply@, witness));
        step
    }

    /// Go on with the reply of the store to the command that was sent last,
    /// given what the generation of the token ended in.
    pub fn resume_with<S>(self, reply: StoreReply<S>, generated: Result<SecureToken, Failure>) -> (step:
        Step<BoardPost, S>)
        ensures
            step@ == self@.next(reply@, generated_view(generated)),
    {
        match self.stage {
            BoardPostStage::Connecting => match reply.get_connection_or_504() {
                Err(failure) => Step::Finish(Err(failure)),
                Ok(()) => {
                    let command = StoreCommand::Watch {
                        order_key: order_key(self.board.as_str()),
                        token_key: token_key(self.board.as_str()),
                        scores_key: scores_key(self.board.as_str()),
                    };
                    Step::Send(self.at(BoardPostStage::Watching), command)
                },
            },
            BoardPostStage::Watching => {
                let command = StoreCommand::KeyType { key: order_key(self.board.as_str()) };
                self.acknowledged(reply, BoardPostStage::CheckingOrder, command)
            },
            BoardPostStage::CheckingOrder => {
                let command = StoreCommand::KeyType { key: token_key(self.board.as_str()) };
                self.checked(reply, BoardPostStage::CheckingToken, command)
            },
            BoardPostStage::CheckingToken => {
                let command = StoreCommand::KeyType { key: scores_key(self.board.as_str()) };
                self.checked(reply, BoardPostStage::CheckingScores, command)
            },
            BoardPostStage::CheckingScores => self.checked(
                reply,
                BoardPostStage::Opening,
                StoreCommand::Multi,
            ),
            BoardPostStage::Opening => match reply {
                StoreReply::Done => self.opened(generated),
                other => Step::Finish(Err(other.failure())),
            },
            BoardPostStage::QueuingOrder => {
                let command = StoreCommand::SetKey {
                    key: token_key(self.board.as_str()),
                    value: self.token.clone(),
                };
                self.acknowledged(reply, BoardPostStage::QueuingToken, command)
            },
            BoardPostStage::QueuingToken => self.acknowledged(
                reply,
                BoardPostStage::Executing,
                StoreCommand::Exec,
            ),
            BoardPostStage::Executing => match reply {
                StoreReply::Done => Step::Finish(
                    Ok(Success { status: StatusCode::Created, data: Data::Token(self.token) }),
                ),
                StoreReply::Nil => Step::Finish(Err(Failure::BoardExists)),
                other => Step::Finish(Err(other.failure())),
            },
        }
    }

    /// Go on once a key was found empty, or end in a conflict.
    fn checked<S>(self, reply: StoreReply<S>, stage: BoardPostStage, command: StoreCommand<S>) -> (step:
        Step<BoardPost, S>)
        ensures
            step@ == self@.checked(reply@, stage, command@),
    {
        match ensure_key_is_empty(&reply) {
            Ok(()) => Step::Send(self.at(stage), command),
            Err(failure) => Step::Finish(Err(failure)),
        }
    }

    /// Go on once a command was acknowledged.
    fn acknowledged<S>(
        self,
        reply: StoreReply<S>,
        stage: BoardPostStage,
        command: StoreCommand<S>,
    ) -> (step: Step<BoardPost, S>)
        ensures
            step@ == self@.acknowledged(reply@, stage, command@),
    {
        match reply {
            StoreReply::Done => Step::Send(self.at(stage), command),
            other => Step::Finish(Err(other.failure())),
        }
    }

    /// Go on once the transaction is open, with what the generation of the
    /// token ended in.
    pub fn opened<S>(self, generated: Result<SecureToken, Failure>) -> (step: Step<BoardPost, S>)
        ensures
            step@ == self@.opened::<S>(generated_view(generated)),
    {
        match generated {
            Ok(token) => {
                let key = order_key(self.board.as_str());
                let code: &'static str = self.order.into();
                Step::Send(
                    BoardPost {
                        board: self.board,
                        order: self.order,
                        token: token.0,
                        stage: BoardPostStage::QueuingOrder,
                    },
                    StoreCommand::SetKey { key, value: code.to_string() },
                )
            },
            Err(failure) => Step::Finish(Err(failure)),
        }
    }
}

/// `a + b`, or the greatest number that the machine counts if the sum is
/// greater.
pub open spec fn saturating_sum(a: usize, b: usize) -> usize {
    if a + b > usize::MAX {
        usize::MAX
    } else {
        (a + b) as usize
    }
}

/// The answer that holds a page of scores which starts at `offset`: the
/// scores, and the offset of the score that follows the last of them.
pub open spec fn spec_page<S>(scores: Seq<ScoreObject<S>>, offset: usize) -> SuccessView<S> {
    SuccessView {
        status: StatusCode::Okay,
        data: DataView::Page {
            scores,
            next_offset: if offset + scores.len() > usize::MAX {
                usize::MAX
            } else {
                (offset + scores.len()) as usize
            },
        },
    }
}

/// The answer that holds a page of scores which starts at `offset`.
pub fn page<S>(scores: Vec<ScoreObject<S>>, offset: usize) -> (success: Success<S>)
    ensures
        success@ == spec_page(scores@, offset),
{
    let next_offset = offset.saturating_add(scores.len());
    Success { status: StatusCode::Okay, data: Data::Page { scores, next_offset } }
}

/// How far the listing of a board has come.
#[derive(Copy, Clone, Debug, PartialEq, Eq, Structural)]
pub enum BoardGetStage {
    /// Waiting for the connection.
    Connecting,
    /// Waiting for the sorting order of the board.
    ReadingOrder,
    /// Waiting for the page of scores.
    Paging,
}

/// The listing of a page of the scores of a board, under way.
#[derive(Clone, Debug, PartialEq)]
pub struct BoardGet {
    /// The canonical name of the board.
    pub board: String,
    /// The offset to start returning scores from.
    pub offset: usize,
    /// How many scores were asked for.
    pub size: usize,
    pub stage: BoardGetStage,
}

/// What a [`BoardGet`] says, with its strings as sequences of characters.
pub struct BoardGetView {
    pub board: Seq<char>,
    pub offset: usize,
    pub size: usize,
    pub stage: BoardGetStage,
}

impl View for BoardGet {
    type V = BoardGetView;

    open spec fn view(&self) -> BoardGetView {
        BoardGetView {
            board: self.board@,
            offset: self.offset,
            size: self.size,
            stage: self.stage,
        }
    }
}

impl BoardGetView {
    /// The same listing at another stage.
    pub open spec fn at(self, stage: BoardGetStage) -> BoardGetView {
        BoardGetView { stage, ..self }
    }

    /// What the listing does with a reply of the store.
    ///
    /// - No connection: the store is out of reach.
    /// - No sorting order, or a code that is none: the store is in a state
    ///   that the service never brings about.
    /// - A page of no scores is answered at once, empty. Any other is asked
    ///   for from rank `offset` to rank `offset + size - 1`, both included,
    ///   in the direction of the order: from the greatest score down for a
    ///   descending board.
    /// - The answer holds the scores as the store gave them, and the offset
    ///   of the score that follows the last of them.
    pub open spec fn next<S>(self, reply: Reply<S>) -> StepView<BoardGetView, S> {
        match self.stage {
            BoardGetStage::Connecting => match reply.connection() {
                Some(failure) => StepView::Finish(Err(failure)),
                None => StepView::Send(
                    self.at(BoardGetStage::ReadingOrder),
                    Command::Get { key: spec_order_key(self.board) },
                ),
            },
            BoardGetStage::ReadingOrder => match reply {
                Reply::Text(code) => match SortingOrder::parse(code) {
                    Some(order) => if self.size == 0 {
                        StepView::Finish(Ok(spec_page(Seq::empty(), self.offset)))
                    } else {
                        StepView::Send(
                            self.at(BoardGetStage::Paging),
                            Command::ZRange {
                                key: spec_scores_key(self.board),
                                start: self.offset,
                                stop: saturating_sum(self.offset, (self.size - 1) as usize),
                                reversed: order.spec_ranks_reversed(),
                            },
                        )
                    },
                    None => StepView::Finish(Err(Failure::StoreUnexpected)),
                },
                _ => StepView::Finish(Err(reply.failure())),
            },
            BoardGetStage::Paging => match reply {
                Reply::Scores(scores) => StepView::Finish(Ok(spec_page(scores, self.offset))),
                _ => StepView::Finish(Err(reply.failure())),
            },
        }
    }
}

/// How the listing of a board begins: a page of more than
/// [`MAX_PAGE_SIZE`] scores is refused before the store is asked for
/// anything; for any other it asks for a connection, with the name made
/// canonical. No credential is needed.
pub open spec fn spec_route_board_get<S>(board: Seq<char>, offset: usize, size: usize) -> StepView<
    BoardGetView,
    S,
> {
    if size > MAX_PAGE_SIZE {
        StepView::Finish(Err(Failure::PageTooLarge))
    } else {
        StepView::Send(
            BoardGetView {
                board: kebab_lowercase(board),
                offset,
                size,
                stage: BoardGetStage::Connecting,
            },
            Command::Connect,
        )
    }
}

/// Handler for `GET /board/`: begin the listing of a page of the scores of
/// a board.
pub fn route_board_get<S>(query: RouteBoardQuery) -> (step: Step<BoardGet, S>)
    ensures
        step@ == spec_route_board_get::<S>(query.board@, query.offset, query.size),
{
    let board = query.board.to_kebab_lowercase();
    if query.size > MAX_PAGE_SIZE {
        return Step::Finish(Err(Failure::PageTooLarge));
    }
    Step::Send(
        BoardGet { board, offset: query.offset, size: query.size, stage: BoardGetStage::Connecting },
        StoreCommand::Connect,
    )
}

impl BoardGet {
    /// Go on with the reply of the store to the command that was sent last.
    pub fn resume<S>(self, reply: StoreReply<S>) -> (step: Step<BoardGet, S>)
        ensures
            step@ == self@.next(reply@),
    {
        let BoardGet { board, offset, size, stage } = self;
        match stage {
            BoardGetStage::Connecting => match reply.get_connection_or_504() {
                Err(failure) => Step::Finish(Err(failure)),
                Ok(()) => {
                    let key = order_key(board.as_str());
                    Step::Send(
                        BoardGet { board, offset, size, stage: BoardGetStage::ReadingOrder },
                        StoreCommand::Get { key },
                    )
                },
            },
            BoardGetStage::ReadingOrder => match reply {
                StoreReply::Text(code) => match SortingOrder::try_from(code.as_str()) {
                    Ok(order) => {
                        if size == 0 {
                            return Step::Finish(Ok(page(Vec::new(), offset)));
                        }
                        let key = scores_key(board.as_str());
                        Step::Send(
                            BoardGet { board, offset, size, stage: BoardGetStage::Paging },
                            StoreCommand::ZRange {
                                key,
                                start: offset,
                                stop: offset.saturating_add(size - 1),
                                reversed: order.ranks_reversed(),
                            },
                        )
                    },
                    Err(_) => Step::Finish(Err(crate::outcome::redis_unexpected_behaviour())),
                },
                other => Step::Finish(Err(other.failure())),
            },
            BoardGetStage::Paging => match reply {
                StoreReply::Scores(scores) => Step::Finish(Ok(page(scores, offset))),
                other => Step::Finish(Err(other.failure())),
            },
        }
    }
}

/// The boundary of a page: a page of up to [`MAX_PAGE_SIZE`] scores is
/// asked of the store, and where the store answers in order, the listing
/// succeeds with the scores that the store gave; a page of one score more is
/// refused as a bad request, and the store is asked for nothing.
pub proof fn lemma_page_size_boundary<S>(
    board: Seq<char>,
    offset: usize,
    size: usize,
    order: SortingOrder,
    scores: Seq<ScoreObject<S>>,
)
    ensures
        size > MAX_PAGE_SIZE ==> (spec_route_board_get::<S>(board, offset, size)
            matches StepView::Finish(Err(failure)) && failure.spec_status()
            == StatusCode::BadRequest),
        0 < size <= MAX_PAGE_SIZE ==> ({
            &&& spec_route_board_get::<S>(board, offset, size) matches StepView::Send(
                connecting,
                command,
            )
            &&& command == Command::<S>::Connect
            &&& connecting.next(Reply::<S>::Done) matches StepView::Send(reading, question)
            &&& question == Command::<S>::Get { key: spec_order_key(kebab_lowercase(board)) }
            &&& reading.next(Reply::<S>::Text(order.code())) matches StepView::Send(paging, range)
            &&& range == Command::<S>::ZRange {
                key: spec_scores_key(kebab_lowercase(board)),
                start: offset,
                stop: saturating_sum(offset, (size - 1) as usize),
                reversed: order.spec_ranks_reversed(),
            }
            &&& paging.next(Reply::Scores(scores)) == StepView::<BoardGetView, S>::Finish(
                Ok(spec_page(scores, offset)),
            )
        }),
        size == 0 ==> ({
            &&& spec_route_board_get::<S>(board, offset, size) matches StepView::Send(
                connecting,
                command,
            )
            &&& connecting.next(Reply::<S>::Done) matches StepView::Send(reading, question)
            &&& reading.next(Reply::<S>::Text(order.code())) == StepView::<BoardGetView, S>::Finish(
                Ok(spec_page(Seq::empty(), offset)),
            )
        }),
{
    crate::utils::sorting::lemma_code_round_trip(order);
}

} // verus!
