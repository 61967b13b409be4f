//! What a request ends in: a status with a payload, or a status with a
//! message that says what went wrong.

use vstd::prelude::*;
use crate::shortcuts::redis::ScoreObject;

verus! {

/// The status line of a response.
#[derive(Copy, Clone, Debug, PartialEq, Eq, Structural)]
pub enum StatusCode {
    Okay,
    Created,
    BadRequest,
    Unauthorized,
    Forbidden,
    NotFound,
    Conflict,
    InternalServerError,
    BadGateway,
    GatewayTimeout,
}

impl StatusCode {
    /// The number of the status.
    pub open spec fn spec_as_u16(self) -> u16 {
        match self {
            StatusCode::Okay => 200,
            StatusCode::Created => 201,
            StatusCode::BadRequest => 400,
            StatusCode::Unauthorized => 401,
            StatusCode::Forbidden => 403,
            StatusCode::NotFound => 404,
            StatusCode::Conflict => 409,
            StatusCode::InternalServerError => 500,
            StatusCode::BadGateway => 502,
            StatusCode::GatewayTimeout => 504,
        }
    }

    /// Whether the status reports a success.
    pub open spec fn spec_is_success(self) -> bool {
        200 <= self.spec_as_u16() < 300
    }

    /// The number of the status.
    pub fn as_u16(&self) -> (code: u16)
        ensures
            code == self.spec_as_u16(),
    {
        match self {
            StatusCode::Okay => 200,
            StatusCode::Created => 201,
            StatusCode::BadRequest => 400,
            StatusCode::Unauthorized => 401,
            StatusCode::Forbidden => 403,
            StatusCode::NotFound => 404,
            StatusCode::Conflict => 409,
            StatusCode::InternalServerError => 500,
            StatusCode::BadGateway => 502,
            StatusCode::GatewayTimeout => 504,
        }
    }

    /// Whether the status reports a success.
    pub fn is_success(&self) -> (success: bool)
        ensures
            success == self.spec_is_success(),
    {
        let code: u16 = self.as_u16();
        200 <= code && code < 300
    }
}

/// The classes of failure.
#[derive(Copy, Clone, Debug, PartialEq, Eq, Structural)]
pub enum FailureClass {
    /// The store could not be reached.
    Connectivity,
    /// The store was reached, but the operation failed.
    CommandFailure,
    /// The store, or the service itself, is in a state that the service
    /// never brings about.
    UnexpectedState,
    /// The resource exists already.
    Conflict,
    /// The credential is missing, garbled or wrong, or what the request
    /// refers to does not exist.
    Authorization,
    /// The caller sent a parameter outside the accepted bounds.
    Validation,
}

/// Why a request failed.
#[derive(Copy, Clone, Debug, PartialEq, Eq, Structural)]
pub enum Failure {
    /// The request carries no authorization header.
    MissingAuthorization,
    /// The authorization header is not text of the form `<scheme> <token>`.
    MalformedAuthorization,
    /// The credential is not the token that gates the creation of boards.
    InvalidCreateToken,
    /// The credential is not the token of the board.
    InvalidBoardToken,
    /// The board does not exist.
    NoSuchBoard,
    /// The player has no score on the board.
    NoSuchScore,
    /// A board of that name exists already.
    BoardExists,
    /// More scores were asked for than one page may hold.
    PageTooLarge,
    /// The store could not be reached.
    StoreUnreachable,
    /// The store could not execute a command.
    StoreCommandFailed,
    /// The store answered what the service does not expect of it.
    StoreUnexpected,
    /// No token could be generated.
    TokenGeneration,
}

impl Failure {
    /// The class of the failure.
    pub open spec fn spec_class(self) -> FailureClass {
        match self {
            Failure::MissingAuthorization => FailureClass::Authorization,
            Failure::MalformedAuthorization => FailureClass::Authorization,
            Failure::InvalidCreateToken => FailureClass::Authorization,
            Failure::InvalidBoardToken => FailureClass::Authorization,
            Failure::NoSuchBoard => FailureClass::Authorization,
            Failure::NoSuchScore => FailureClass::Authorization,
            Failure::BoardExists => FailureClass::Conflict,
            Failure::PageTooLarge => FailureClass::Validation,
            Failure::StoreUnreachable => FailureClass::Connectivity,
            Failure::StoreCommandFailed => FailureClass::CommandFailure,
            Failure::StoreUnexpected => FailureClass::UnexpectedState,
            Failure::TokenGeneration => FailureClass::UnexpectedState,
        }
    }

    /// The status that reports the failure.
    pub open spec fn spec_status(self) -> StatusCode {
        match self {
            Failure::MissingAuthorization => StatusCode::Unauthorized,
            Failure::MalformedAuthorization => StatusCode::Unauthorized,
            Failure::InvalidCreateToken => StatusCode::Forbidden,
            Failure::InvalidBoardToken => StatusCode::Forbidden,
            Failure::NoSuchBoard => StatusCode::NotFound,
            Failure::NoSuchScore => StatusCode::NotFound,
            Failure::BoardExists => StatusCode::Conflict,
            Failure::PageTooLarge => StatusCode::BadRequest,
            Failure::StoreUnreachable => StatusCode::GatewayTimeout,
            Failure::StoreCommandFailed => StatusCode::BadGateway,
            Failure::StoreUnexpected => StatusCode::InternalServerError,
            Failure::TokenGeneration => StatusCode::InternalServerError,
        }
    }

    /// The message that tells a human what went wrong.
    pub open spec fn spec_message(self) -> Seq<char> {
        match self {
            Failure::MissingAuthorization => "Missing Authorization header"@,
            Failure::MalformedAuthorization => "Malformed Authorization header"@,
            Failure::InvalidCreateToken => "Invalid create token"@,
            Failure::InvalidBoardToken => "Invalid board token"@,
            Failure::NoSuchBoard => "No such board"@,
            Failure::NoSuchScore => "No such score"@,
            Failure::BoardExists => "Board already exists"@,
            Failure::PageTooLarge => "Cannot request more than 500 scores at a time"@,
            Failure::StoreUnreachable => "Could not connect to Redis"@,
            Failure::StoreCommandFailed => "Could not execute Redis command"@,
            Failure::StoreUnexpected => "Redis gave an unexpected response"@,
            Failure::TokenGeneration => "Could not generate token"@,
        }
    }

    /// The class of the failure.
    pub fn class(&self) -> (class: FailureClass)
        ensures
            class == self.spec_class(),
    {
        match self {
            Failure::MissingAuthorization => FailureClass::Authorization,
            Failure::MalformedAuthorization => FailureClass::Authorization,
            Failure::InvalidCreateToken => FailureClass::Authorization,
            Failure::InvalidBoardToken => FailureClass::Authorization,
            Failure::NoSuchBoard => FailureClass::Authorization,
            Failure::NoSuchScore => FailureClass::Authorization,
            Failure::BoardExists => FailureClass::Conflict,
            Failure::PageTooLarge => FailureClass::Validation,
            Failure::StoreUnreachable => FailureClass::Connectivity,
            Failure::StoreCommandFailed => FailureClass::CommandFailure,
            Failure::StoreUnexpected => FailureClass::UnexpectedState,
            Failure::TokenGeneration => FailureClass::UnexpectedState,
        }
    }

    /// The status that reports the failure: never a success.
    pub fn status(&self) -> (status: StatusCode)
        ensures
            status == self.spec_status(),
            !status.spec_is_success(),
    {
        match self {
            Failure::MissingAuthorization => StatusCode::Unauthorized,
            Failure::MalformedAuthorization => StatusCode::Unauthorized,
            Failure::InvalidCreateToken => StatusCode::Forbidden,
            Failure::InvalidBoardToken => StatusCode::Forbidden,
            Failure::NoSuchBoard => StatusCode::NotFound,
            Failure::NoSuchScore => StatusCode::NotFound,
            Failure::BoardExists => StatusCode::Conflict,
            Failure::PageTooLarge => StatusCode::BadRequest,
            Failure::StoreUnreachable => StatusCode::GatewayTimeout,
            Failure::StoreCommandFailed => StatusCode::BadGateway,
            Failure::StoreUnexpected => StatusCode::InternalServerError,
            Failure::TokenGeneration => StatusCode::InternalServerError,
        }
    }

    /// The message that tells a human what went wrong.
    pub fn message(&self) -> (message: String)
        ensures
            message@ == self.spec_message(),
    {
        match self {
            Failure::MissingAuthorization => "Missing Authorization header".to_string(),
            Failure::MalformedAuthorization => "Malformed Authorization header".to_string(),
            Failure::InvalidCreateToken => "Invalid create token".to_string(),
            Failure::InvalidBoardToken => "Invalid board token".to_string(),
            Failure::NoSuchBoard => "No such board".to_string(),
            Failure::NoSuchScore => "No such score".to_string(),
            Failure::BoardExists => "Board already exists".to_string(),
            Failure::PageTooLarge => "Cannot request more than 500 scores at a time".to_string(),
            Failure::StoreUnreachable => "Could not connect to Redis".to_string(),
            Failure::StoreCommandFailed => "Could not execute Redis command".to_string(),
            Failure::StoreUnexpected => "Redis gave an unexpected response".to_string(),
            Failure::TokenGeneration => "Could not generate token".to_string(),
        }
    }
}

/// The position of a player on a board.
#[derive(Clone, Debug, PartialEq)]
pub struct RouteScoreResponse<S> {
    /// The score the player has on the board.
    pub score: S,
    /// The position of the player relative to the other players on the
    /// board, zero-based.
    pub rank: usize,
}

/// What a request that succeeded reports.
#[derive(Clone, Debug, PartialEq)]
pub enum Data<S> {
    /// Nothing.
    Null,
    /// The token of the board that was created.
    Token(String),
    /// A page of scores, and the offset at which the next page starts.
    Page { scores: Vec<ScoreObject<S>>, next_offset: usize },
    /// The score and the rank of a player.
    Score(RouteScoreResponse<S>),
}

/// What [`Data`] says, with its strings as sequences of characters.
pub enum DataView<S> {
    Null,
    Token(Seq<char>),
    Page { scores: Seq<ScoreObject<S>>, next_offset: usize },
    Score(RouteScoreResponse<S>),
}

impl<S> View for Data<S> {
    type V = DataView<S>;

    open spec fn view(&self) -> DataView<S> {
        match *self {
            Data::Null => DataView::Null,
            Data::Token(token) => DataView::Token(token@),
            Data::Page { scores, next_offset } => DataView::Page { scores: scores@, next_offset },
            Data::Score(standing) => DataView::Score(standing),
        }
    }
}

/// A request that succeeded.
#[derive(Clone, Debug, PartialEq)]
pub struct Success<S> {
    /// The status that reports the success.
    pub status: StatusCode,
    /// What there is to report.
    pub data: Data<S>,
}

/// What a [`Success`] says, with its strings as sequences of characters.
pub struct SuccessView<S> {
    pub status: StatusCode,
    pub data: DataView<S>,
}

impl<S> View for Success<S> {
    type V = SuccessView<S>;

    open spec fn view(&self) -> SuccessView<S> {
        SuccessView { status: self.status, data: self.data@ }
    }
}

/// How a request ended.
pub type RequestResult<S> = Result<Success<S>, Failure>;

/// What a [`RequestResult`] says, with its strings as sequences of characters.
pub open spec fn result_view<S>(result: RequestResult<S>) -> Result<SuccessView<S>, Failure> {
    match result {
        Ok(success) => Ok(success@),
        Err(failure) => Err(failure),
    }
}

/// The request succeeded, and there's no data to be returned.
pub fn success_null<S>() -> (success: Success<S>)
    ensures
        success@ == (SuccessView::<S> { status: StatusCode::Okay, data: DataView::Null }),
{
    Success { status: StatusCode::Okay, data: Data::Null }
}

/// The execution of a command in the store failed.
pub fn redis_cmd_failed() -> (failure: Failure)
    ensures
        failure == Failure::StoreCommandFailed,
{
    Failure::StoreCommandFailed
}

/// The result of a command in the store is unexpected.
pub fn redis_unexpected_behaviour() -> (failure: Failure)
    ensures
        failure == Failure::StoreUnexpected,
{
    Failure::StoreUnexpected
}

} // verus!
