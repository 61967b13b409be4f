//! The requests on `/`: is the service up, and is the store?

use vstd::prelude::*;
use crate::outcome::success_null;
use crate::outcome::DataView;
use crate::outcome::Failure;
use crate::outcome::StatusCode;
use crate::outcome::Success;
use crate::outcome::SuccessView;
use crate::shortcuts::redis::Command;
use crate::shortcuts::redis::Reply;
use crate::shortcuts::redis::Step;
use crate::shortcuts::redis::StepView;
use crate::shortcuts::redis::StoreCommand;
use crate::shortcuts::redis::StoreReply;
use crate::utils::strings::str_eq;

verus! {

/// Handler for `GET /`: the service is up, and there is nothing to report.
pub fn route_home_get<S>() -> (answer: Result<Success<S>, Failure>)
    ensures
        answer matches Ok(success) && success@ == (SuccessView::<S> {
            status: StatusCode::Okay,
            data: DataView::Null,
        }),
{
    Ok(success_null())
}

/// How far the check of the store has come.
#[derive(Copy, Clone, Debug, PartialEq, Eq, Structural)]
pub enum HomePatch {
    /// Waiting for the connection.
    Connecting,
    /// Waiting for the `PONG`.
    Pinging,
}

impl View for HomePatch {
    type V = HomePatch;

    open spec fn view(&self) -> HomePatch {
        *self
    }
}

impl HomePatch {
    /// What the check does with a reply of the store: once connected it
    /// sends a `PING`, and the store is well if it answers `PONG`. Any other
    /// text is not what the service expects of it.
    pub open spec fn next<S>(self, reply: Reply<S>) -> StepView<HomePatch, S> {
        match self {
            HomePatch::Connecting => match reply.connection() {
                Some(failure) => StepView::Finish(Err(failure)),
                None => StepView::Send(HomePatch::Pinging, Command::Ping),
            },
            HomePatch::Pinging => match reply {
                Reply::Text(pong) => if pong == "PONG"@ {
                    StepView::Finish(
                        Ok(SuccessView { status: StatusCode::Okay, data: DataView::Null }),
                    )
                } else {
                    StepView::Finish(Err(Failure::StoreUnexpected))
                },
                _ => StepView::Finish(Err(reply.failure())),
            },
        }
    }

    /// Go on with the reply of the store to the command that was sent last.
    pub fn resume<S>(self, reply: StoreReply<S>) -> (step: Step<HomePatch, S>)
        ensures
            step@ == self.next(reply@),
    {
        match self {
            HomePatch::Connecting => match reply.get_connection_or_504() {
                Err(failure) => Step::Finish(Err(failure)),
                Ok(()) => Step::Send(HomePatch::Pinging, StoreCommand::Ping),
            },
            HomePatch::Pinging => match reply {
                StoreReply::Text(pong) => {
                    if str_eq(pong.as_str(), "PONG") {
                        Step::Finish(Ok(success_null()))
                    } else {
                        Step::Finish(Err(crate::outcome::redis_unexpected_behaviour()))
                    }
                },
                other => Step::Finish(Err(other.failure())),
            },
        }
    }
}

/// Handler for `PATCH /`: begin the check of the store.
pub fn route_home_patch<S>() -> (step: Step<HomePatch, S>)
    ensures
        step@ == StepView::<HomePatch, S>::Send(HomePatch::Connecting, Command::Connect),
{
    Step::Send(HomePatch::Connecting, StoreCommand::Connect)
}

} // verus!
