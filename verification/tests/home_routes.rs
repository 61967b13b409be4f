use leaderboard::outcome::Data;
use leaderboard::outcome::Failure;
use leaderboard::outcome::StatusCode;
use leaderboard::outcome::Success;
use leaderboard::routes::home::route_home_get;
use leaderboard::routes::home::route_home_patch;
use leaderboard::routes::home::HomePatch;
use leaderboard::shortcuts::redis::rank_command;
use leaderboard::shortcuts::redis::Step;
use leaderboard::shortcuts::redis::StoreCommand;
use leaderboard::shortcuts::redis::StoreReply;
use leaderboard::utils::sorting::SortingOrder;

#[test]
fn service_is_up() {
    assert_eq!(
        route_home_get::<f64>(),
        Ok(Success { status: StatusCode::Okay, data: Data::Null })
    );
}

#[test]
fn check_begins_with_a_connection() {
    assert_eq!(
        route_home_patch::<f64>(),
        Step::Send(HomePatch::Connecting, StoreCommand::Connect)
    );
}

#[test]
fn check_pings_the_store() {
    assert_eq!(
        HomePatch::Connecting.resume(StoreReply::<f64>::Done),
        Step::Send(HomePatch::Pinging, StoreCommand::Ping)
    );
}

#[test]
fn check_succeeds_on_pong() {
    assert_eq!(
        HomePatch::Pinging.resume(StoreReply::<f64>::Text(String::from("PONG"))),
        Step::Finish(Ok(Success { status: StatusCode::Okay, data: Data::Null }))
    );
}

#[test]
fn check_expects_pong_and_nothing_else() {
    for text in ["", "pong", "PONG ", "PING", "OK"] {
        assert_eq!(
            HomePatch::Pinging.resume(StoreReply::<f64>::Text(String::from(text))),
            Step::Finish(Err(Failure::StoreUnexpected))
        );
    }
    assert_eq!(
        HomePatch::Pinging.resume(StoreReply::<f64>::Done),
        Step::Finish(Err(Failure::StoreUnexpected))
    );
}

#[test]
fn check_meets_a_store_that_fails() {
    assert_eq!(
        HomePatch::Connecting.resume(StoreReply::<f64>::Unreachable),
        Step::Finish(Err(Failure::StoreUnreachable))
    );
    assert_eq!(
        HomePatch::Connecting.resume(StoreReply::<f64>::Failed),
        Step::Finish(Err(Failure::StoreUnreachable))
    );
    assert_eq!(
        HomePatch::Pinging.resume(StoreReply::<f64>::Failed),
        Step::Finish(Err(Failure::StoreCommandFailed))
    );
    assert_eq!(
        HomePatch::Pinging.resume(StoreReply::<f64>::Unreachable),
        Step::Finish(Err(Failure::StoreUnreachable))
    );
}

#[test]
fn replies_amount_to_failures() {
    assert_eq!(StoreReply::<f64>::Unreachable.failure(), Failure::StoreUnreachable);
    assert_eq!(StoreReply::<f64>::Failed.failure(), Failure::StoreCommandFailed);
    assert_eq!(StoreReply::<f64>::Done.failure(), Failure::StoreUnexpected);
    assert_eq!(StoreReply::<f64>::Nil.failure(), Failure::StoreUnexpected);
    assert_eq!(StoreReply::<f64>::Integer(0).failure(), Failure::StoreUnexpected);
    assert_eq!(StoreReply::<f64>::Score(0.0).failure(), Failure::StoreUnexpected);
}

#[test]
fn connection_stands_or_the_store_is_out_of_reach() {
    assert_eq!(StoreReply::<f64>::Done.get_connection_or_504(), Ok(()));
    assert_eq!(
        StoreReply::<f64>::Unreachable.get_connection_or_504(),
        Err(Failure::StoreUnreachable)
    );
    assert_eq!(StoreReply::<f64>::Failed.get_connection_or_504(), Err(Failure::StoreUnreachable));
    assert_eq!(StoreReply::<f64>::Nil.get_connection_or_504(), Err(Failure::StoreUnreachable));
    assert_eq!(Failure::StoreUnreachable.status(), StatusCode::GatewayTimeout);
}

#[test]
fn rank_commands_follow_the_order() {
    assert_eq!(
        rank_command::<f64>(SortingOrder::Ascending, String::from("k"), String::from("p")),
        StoreCommand::ZRank { key: String::from("k"), player: String::from("p") }
    );
    assert_eq!(
        rank_command::<f64>(SortingOrder::Descending, String::from("k"), String::from("p")),
        StoreCommand::ZRevRank { key: String::from("k"), player: String::from("p") }
    );
}
