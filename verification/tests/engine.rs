use std::collections::BTreeMap;

use leaderboard::config::Config;
use leaderboard::outcome::Data;
use leaderboard::outcome::Failure;
use leaderboard::outcome::RouteScoreResponse;
use leaderboard::outcome::StatusCode;
use leaderboard::outcome::Success;
use leaderboard::routes::board::route_board_get;
use leaderboard::routes::board::route_board_post;
use leaderboard::routes::board::BoardPost;
use leaderboard::routes::board::RouteBoardBody;
use leaderboard::routes::board::RouteBoardQuery;
use leaderboard::routes::home::route_home_patch;
use leaderboard::routes::score::route_score_get;
use leaderboard::routes::score::route_score_put;
use leaderboard::routes::score::RouteScoreQuery;
use leaderboard::shortcuts::redis::ScoreObject;
use leaderboard::shortcuts::redis::Step;
use leaderboard::shortcuts::redis::StoreCommand;
use leaderboard::shortcuts::redis::StoreReply;
use leaderboard::shortcuts::token::Authorization;
use leaderboard::shortcuts::token::Headers;
use leaderboard::utils::sorting::SortingOrder;

/// What a key of the store double holds.
#[derive(Clone, Debug, PartialEq)]
enum Stored {
    Text(String),
    Scores(Vec<(String, f64)>),
}

/// A connection to the store double.
#[derive(Clone, Debug, Default)]
struct Connection {
    watched: Vec<String>,
    dirty: bool,
    queuing: bool,
    queued: Vec<(String, String)>,
}

/// An ordered-set store in memory, with optimistic transactions.
#[derive(Clone, Debug, Default)]
struct Store {
    keys: BTreeMap<String, Stored>,
    connections: Vec<Connection>,
    log: Vec<StoreCommand<f64>>,
}

impl Store {
    fn connect(&mut self) -> usize {
        self.connections.push(Connection::default());
        self.connections.len() - 1
    }

    fn write(&mut self, who: usize, key: &str, value: Stored) {
        self.keys.insert(String::from(key), value);
        for (other, connection) in self.connections.iter_mut().enumerate() {
            if other != who && connection.watched.iter().any(|watched| watched == key) {
                connection.dirty = true;
            }
        }
    }

    fn sorted(&self, key: &str) -> Option<Vec<(String, f64)>> {
        match self.keys.get(key) {
            None => Some(vec![]),
            Some(Stored::Scores(scores)) => {
                let mut sorted = scores.clone();
                sorted.sort_by(|a, b| a.1.partial_cmp(&b.1).unwrap().then(a.0.cmp(&b.0)));
                Some(sorted)
            }
            Some(Stored::Text(_)) => None,
        }
    }

    fn serve(&mut self, who: usize, command: StoreCommand<f64>) -> StoreReply<f64> {
        self.log.push(command.clone());
        match command {
            StoreCommand::Connect => StoreReply::Done,
            StoreCommand::Ping => StoreReply::Text(String::from("PONG")),
            StoreCommand::Watch { order_key, token_key, scores_key } => {
                self.connections[who].watched.extend([order_key, token_key, scores_key]);
                StoreReply::Done
            }
            StoreCommand::KeyType { key } => StoreReply::Text(String::from(
                match self.keys.get(&key) {
                    None => "none",
                    Some(Stored::Text(_)) => "string",
                    Some(Stored::Scores(_)) => "zset",
                },
            )),
            StoreCommand::Multi => {
                self.connections[who].queuing = true;
                StoreReply::Done
            }
            StoreCommand::SetKey { key, value } => {
                if self.connections[who].queuing {
                    self.connections[who].queued.push((key, value));
                } else {
                    self.write(who, &key, Stored::Text(value));
                }
                StoreReply::Done
            }
            StoreCommand::Exec => {
                if !self.connections[who].queuing {
                    return StoreReply::Failed;
                }
                let connection = std::mem::take(&mut self.connections[who]);
                if connection.dirty {
                    return StoreReply::Nil;
                }
                for (key, value) in connection.queued {
                    self.write(who, &key, Stored::Text(value));
                }
                StoreReply::Done
            }
            StoreCommand::Get { key } => match self.keys.get(&key) {
                None => StoreReply::Nil,
                Some(Stored::Text(text)) => StoreReply::Text(text.clone()),
                Some(Stored::Scores(_)) => StoreReply::Failed,
            },
            StoreCommand::ZAdd { key, mode, player, score } => {
                let mut scores = match self.keys.get(&key) {
                    None => vec![],
                    Some(Stored::Scores(scores)) => scores.clone(),
                    Some(Stored::Text(_)) => return StoreReply::Failed,
                };
                let changed = match scores.iter_mut().find(|entry| entry.0 == player) {
                    None => {
                        scores.push((player, score));
                        true
                    }
                    Some(entry) => {
                        let better = match mode.as_str() {
                            "LT" => score < entry.1,
                            "GT" => score > entry.1,
                            _ => return StoreReply::Failed,
                        };
                        if better {
                            entry.1 = score;
                        }
                        better
                    }
                };
                self.write(who, &key, Stored::Scores(scores));
                StoreReply::Integer(if changed { 1 } else { 0 })
            }
            StoreCommand::ZScore { key, player } => match self.sorted(&key) {
                None => StoreReply::Failed,
                Some(scores) => match scores.iter().find(|entry| entry.0 == player) {
                    None => StoreReply::Nil,
                    Some(entry) => StoreReply::Score(entry.1),
                },
            },
            StoreCommand::ZRank { key, player } => match self.sorted(&key) {
                None => StoreReply::Failed,
                Some(scores) => match scores.iter().position(|entry| entry.0 == player) {
                    None => StoreReply::Nil,
                    Some(rank) => StoreReply::Integer(rank as i64),
                },
            },
            StoreCommand::ZRevRank { key, player } => match self.sorted(&key) {
                None => StoreReply::Failed,
                Some(scores) => match scores.iter().rev().position(|entry| entry.0 == player) {
                    None => StoreReply::Nil,
                    Some(rank) => StoreReply::Integer(rank as i64),
                },
            },
            StoreCommand::ZRange { key, start, stop, reversed } => match self.sorted(&key) {
                None => StoreReply::Failed,
                Some(mut scores) => {
                    if reversed {
                        scores.reverse();
                    }
                    StoreReply::Scores(
                        scores
                            .into_iter()
                            .enumerate()
                            .filter(|(rank, _)| start <= *rank && *rank <= stop)
                            .map(|(_, entry)| ScoreObject::from(entry))
                            .collect(),
                    )
                }
            },
        }
    }
}

fn bearer(token: &str) -> Headers {
    Headers { authorization: Authorization::Text(format!("Bearer {token}")) }
}

fn master() -> Config {
    Config::gated(String::from("master"))
}

fn create(store: &mut Store, name: &str, order: SortingOrder) -> Result<Success<f64>, Failure> {
    let who = store.connect();
    let body = RouteBoardBody { name: String::from(name), order };
    let mut step = route_board_post(&master(), &bearer("master"), body);
    loop {
        match step {
            Step::Finish(answer) => return answer,
            Step::Send(request, command) => step = request.resume(store.serve(who, command)),
        }
    }
}

fn created(store: &mut Store, name: &str, order: SortingOrder) -> String {
    match create(store, name, order) {
        Ok(Success { status: StatusCode::Created, data: Data::Token(token) }) => token,
        other => panic!("the board was not created: {other:?}"),
    }
}

fn submit(
    store: &mut Store,
    headers: &Headers,
    board: &str,
    player: &str,
    score: f64,
) -> Result<Success<f64>, Failure> {
    let who = store.connect();
    let query = RouteScoreQuery { board: String::from(board), player: String::from(player) };
    let mut step = route_score_put(headers, query, score);
    loop {
        match step {
            Step::Finish(answer) => return answer,
            Step::Send(request, command) => step = request.resume(store.serve(who, command)),
        }
    }
}

fn ask(store: &mut Store, board: &str, player: &str) -> Result<Success<f64>, Failure> {
    let who = store.connect();
    let query = RouteScoreQuery { board: String::from(board), player: String::from(player) };
    let mut step = route_score_get(query);
    loop {
        match step {
            Step::Finish(answer) => return answer,
            Step::Send(request, command) => step = request.resume(store.serve(who, command)),
        }
    }
}

fn list(store: &mut Store, board: &str, offset: usize, size: usize) -> Result<Success<f64>, Failure> {
    let who = store.connect();
    let query = RouteBoardQuery { board: String::from(board), offset, size };
    let mut step = route_board_get(query);
    loop {
        match step {
            Step::Finish(answer) => return answer,
            Step::Send(request, command) => step = request.resume(store.serve(who, command)),
        }
    }
}

fn standing(status: StatusCode, score: f64, rank: usize) -> Result<Success<f64>, Failure> {
    Ok(Success { status, data: Data::Score(RouteScoreResponse { score, rank }) })
}

fn names(answer: Result<Success<f64>, Failure>) -> (Vec<String>, usize) {
    match answer {
        Ok(Success { status: StatusCode::Okay, data: Data::Page { scores, next_offset } }) => {
            (scores.into_iter().map(|object| object.name).collect(), next_offset)
        }
        other => panic!("no page: {other:?}"),
    }
}

/// Let the requests take turns as the schedule says until all are answered.
fn race(store: &mut Store, contenders: &[&str], schedule: &[usize]) -> Vec<Result<Success<f64>, Failure>> {
    let mut steps: Vec<Option<Step<BoardPost, f64>>> = vec![];
    let mut connections = vec![];
    for name in contenders {
        let body = RouteBoardBody { name: String::from(*name), order: SortingOrder::Ascending };
        steps.push(Some(route_board_post(&master(), &bearer("master"), body)));
        connections.push(store.connect());
    }
    let mut turn = 0;
    while steps.iter().any(|step| matches!(step, Some(Step::Send(..)))) {
        let who = schedule[turn % schedule.len()] % contenders.len();
        turn += 1;
        match steps[who].take() {
            Some(Step::Send(request, command)) => {
                let reply = store.serve(connections[who], command);
                steps[who] = Some(request.resume(reply));
            }
            answered => steps[who] = answered,
        }
    }
    steps
        .into_iter()
        .map(|step| match step {
            Some(Step::Finish(answer)) => answer,
            _ => unreachable!(),
        })
        .collect()
}

fn count_created(answers: &[Result<Success<f64>, Failure>]) -> usize {
    answers
        .iter()
        .filter(|answer| matches!(answer, Ok(Success { status: StatusCode::Created, .. })))
        .count()
}

fn count_conflicts(answers: &[Result<Success<f64>, Failure>]) -> usize {
    answers.iter().filter(|answer| **answer == Err(Failure::BoardExists)).count()
}

#[test]
fn board_is_created_with_order_and_token() {
    let mut store = Store::default();
    let token = created(&mut store, "My Board", SortingOrder::Descending);
    assert_eq!(token.chars().count(), 16);
    assert_eq!(store.keys.get("board:my-board:order"), Some(&Stored::Text(String::from("DSC"))));
    assert_eq!(store.keys.get("board:my-board:token"), Some(&Stored::Text(token)));
    assert_eq!(store.keys.get("board:my-board:scores"), None);
    assert_eq!(store.keys.len(), 2);
}

#[test]
fn board_is_created_once() {
    let mut store = Store::default();
    let token = created(&mut store, "My Board", SortingOrder::Ascending);
    for name in ["My Board", "my-board", "MY_BOARD", "my board"] {
        assert_eq!(create(&mut store, name, SortingOrder::Descending), Err(Failure::BoardExists));
    }
    assert_eq!(store.keys.get("board:my-board:order"), Some(&Stored::Text(String::from("ASC"))));
    assert_eq!(store.keys.get("board:my-board:token"), Some(&Stored::Text(token)));
}

#[test]
fn boards_of_other_names_do_not_collide() {
    let mut store = Store::default();
    let first = created(&mut store, "first", SortingOrder::Ascending);
    let second = created(&mut store, "second", SortingOrder::Ascending);
    assert_ne!(first, second);
    assert_eq!(store.keys.len(), 4);
}

#[test]
fn concurrent_creations_yield_one_board() {
    let contenders = ["Race", "race", "RACE", "rAcE", "race", "Race", "rAce", "raCe"];
    let schedules: [&[usize]; 8] = [
        &[0, 1, 2, 3, 4, 5, 6, 7],
        &[7, 6, 5, 4, 3, 2, 1, 0],
        &[0, 0, 1, 1, 2, 2, 3, 3, 4, 4, 5, 5, 6, 6, 7, 7],
        &[0, 1, 0, 2, 0, 3, 0, 4, 0, 5, 0, 6, 0, 7],
        &[3, 1, 4, 1, 5, 2, 6, 5, 3, 5, 0, 7],
        &[0, 0, 0, 0, 0, 0, 0, 0, 1, 2, 3, 4, 5, 6, 7],
        &[1, 2, 3, 4, 5, 6, 7, 1, 2, 3, 4, 5, 6, 7, 1, 2, 3, 4, 5, 6, 7, 0],
        &[5, 5, 5, 2, 2, 7, 0, 1, 3, 4, 6],
    ];
    for schedule in schedules {
        let mut store = Store::default();
        let answers = race(&mut store, &contenders, schedule);
        assert_eq!(answers.len(), 8);
        assert_eq!(count_created(&answers), 1);
        assert_eq!(count_conflicts(&answers), 7);
        assert!(store.keys.contains_key("board:race:order"));
        assert!(store.keys.contains_key("board:race:token"));
    }
}

#[test]
fn concurrent_creations_for_every_number_of_requests() {
    for n in 1..=6 {
        let contenders: Vec<&str> = std::iter::repeat("contest").take(n).collect();
        let schedule: Vec<usize> = (0..n).collect();
        let mut store = Store::default();
        let answers = race(&mut store, &contenders, &schedule);
        assert_eq!(count_created(&answers), 1);
        assert_eq!(count_conflicts(&answers), n - 1);
    }
}

#[test]
fn winner_of_a_race_holds_the_stored_token() {
    let mut store = Store::default();
    let answers = race(&mut store, &["duel", "duel"], &[0, 1]);
    let tokens: Vec<&String> = answers
        .iter()
        .filter_map(|answer| match answer {
            Ok(Success { data: Data::Token(token), .. }) => Some(token),
            _ => None,
        })
        .collect();
    assert_eq!(tokens.len(), 1);
    assert_eq!(store.keys.get("board:duel:token"), Some(&Stored::Text(tokens[0].clone())));
}

#[test]
fn ascending_board_keeps_the_least_score() {
    let mut store = Store::default();
    let token = created(&mut store, "golf", SortingOrder::Ascending);
    let headers = bearer(&token);
    assert_eq!(
        submit(&mut store, &headers, "golf", "alice", 10.0),
        standing(StatusCode::Created, 10.0, 0)
    );
    assert_eq!(
        submit(&mut store, &headers, "golf", "alice", 7.0),
        standing(StatusCode::Created, 7.0, 0)
    );
    assert_eq!(
        submit(&mut store, &headers, "golf", "alice", 9.0),
        standing(StatusCode::Okay, 7.0, 0)
    );
    assert_eq!(
        submit(&mut store, &headers, "golf", "alice", 7.0),
        standing(StatusCode::Okay, 7.0, 0)
    );
    assert_eq!(ask(&mut store, "golf", "alice"), standing(StatusCode::Okay, 7.0, 0));
}

#[test]
fn descending_board_keeps_the_greatest_score() {
    let mut store = Store::default();
    let token = created(&mut store, "darts", SortingOrder::Descending);
    let headers = bearer(&token);
    assert_eq!(
        submit(&mut store, &headers, "darts", "alice", 10.0),
        standing(StatusCode::Created, 10.0, 0)
    );
    for worse in [7.0, 9.0, 7.0] {
        assert_eq!(
            submit(&mut store, &headers, "darts", "alice", worse),
            standing(StatusCode::Okay, 10.0, 0)
        );
    }
    assert_eq!(ask(&mut store, "darts", "alice"), standing(StatusCode::Okay, 10.0, 0));
}

#[test]
fn ranks_run_from_the_best_score() {
    let mut store = Store::default();
    let token = created(&mut store, "Hi Scores", SortingOrder::Descending);
    let headers = bearer(&token);
    for (player, score) in [("A", 50.0), ("B", 80.0), ("C", 80.0)] {
        assert!(submit(&mut store, &headers, "Hi Scores", player, score).is_ok());
    }
    assert_eq!(ask(&mut store, "hi-scores", "a"), standing(StatusCode::Okay, 50.0, 2));
    let b = ask(&mut store, "hi-scores", "b");
    let c = ask(&mut store, "hi-scores", "c");
    assert!(
        (b == standing(StatusCode::Okay, 80.0, 0) && c == standing(StatusCode::Okay, 80.0, 1))
            || (b == standing(StatusCode::Okay, 80.0, 1)
                && c == standing(StatusCode::Okay, 80.0, 0))
    );
}

#[test]
fn ranks_on_an_ascending_board() {
    let mut store = Store::default();
    let token = created(&mut store, "laps", SortingOrder::Ascending);
    let headers = bearer(&token);
    for (player, score) in [("A", 50.0), ("B", 80.0), ("C", 65.5)] {
        assert!(submit(&mut store, &headers, "laps", player, score).is_ok());
    }
    assert_eq!(ask(&mut store, "laps", "A"), standing(StatusCode::Okay, 50.0, 0));
    assert_eq!(ask(&mut store, "laps", "C"), standing(StatusCode::Okay, 65.5, 1));
    assert_eq!(ask(&mut store, "laps", "B"), standing(StatusCode::Okay, 80.0, 2));
    assert_eq!(
        submit(&mut store, &headers, "laps", "B", 10.0),
        standing(StatusCode::Created, 10.0, 0)
    );
    assert_eq!(ask(&mut store, "laps", "A"), standing(StatusCode::Okay, 50.0, 1));
}

#[test]
fn players_differing_by_case_are_one_player() {
    let mut store = Store::default();
    let token = created(&mut store, "laps", SortingOrder::Ascending);
    let headers = bearer(&token);
    assert_eq!(
        submit(&mut store, &headers, "laps", "Mario Rossi", 50.0),
        standing(StatusCode::Created, 50.0, 0)
    );
    assert_eq!(
        submit(&mut store, &headers, "LAPS", "mario_rossi", 60.0),
        standing(StatusCode::Okay, 50.0, 0)
    );
    assert_eq!(ask(&mut store, "Laps", "MARIO-ROSSI"), standing(StatusCode::Okay, 50.0, 0));
}

#[test]
fn player_without_score_is_not_found() {
    let mut store = Store::default();
    created(&mut store, "laps", SortingOrder::Ascending);
    assert_eq!(ask(&mut store, "laps", "nobody"), Err(Failure::NoSuchScore));
    assert_eq!(ask(&mut store, "no-such-board", "nobody"), Err(Failure::NoSuchScore));
}

#[test]
fn page_of_five_hundred_succeeds() {
    let mut store = Store::default();
    let token = created(&mut store, "laps", SortingOrder::Ascending);
    assert!(submit(&mut store, &bearer(&token), "laps", "alice", 1.0).is_ok());
    assert_eq!(names(list(&mut store, "laps", 0, 500)), (vec![String::from("alice")], 1));
}

#[test]
fn page_of_five_hundred_and_one_never_reaches_the_store() {
    let mut store = Store::default();
    created(&mut store, "laps", SortingOrder::Ascending);
    let sent = store.log.len();
    let connections = store.connections.len();
    assert_eq!(list(&mut store, "laps", 0, 501), Err(Failure::PageTooLarge));
    assert_eq!(store.log.len(), sent);
    assert_eq!(store.connections.len(), connections + 1);
}

#[test]
fn pages_follow_each_other() {
    let mut store = Store::default();
    let token = created(&mut store, "laps", SortingOrder::Ascending);
    let headers = bearer(&token);
    for (player, score) in [("e", 5.0), ("a", 1.0), ("d", 4.0), ("b", 2.0), ("c", 3.0)] {
        assert!(submit(&mut store, &headers, "laps", player, score).is_ok());
    }
    let (first, next) = names(list(&mut store, "laps", 0, 2));
    assert_eq!(first, ["a", "b"]);
    assert_eq!(next, 2);
    let (second, next) = names(list(&mut store, "laps", next, 2));
    assert_eq!(second, ["c", "d"]);
    assert_eq!(next, 4);
    let (third, next) = names(list(&mut store, "laps", next, 2));
    assert_eq!(third, ["e"]);
    assert_eq!(next, 5);
    let (fourth, next) = names(list(&mut store, "laps", next, 2));
    assert_eq!(fourth, Vec::<String>::new());
    assert_eq!(next, 5);
}

#[test]
fn page_holds_as_many_scores_as_asked_for() {
    let mut store = Store::default();
    let token = created(&mut store, "laps", SortingOrder::Ascending);
    let headers = bearer(&token);
    for (player, score) in [("e", 5.0), ("a", 1.0), ("d", 4.0), ("b", 2.0), ("c", 3.0)] {
        assert!(submit(&mut store, &headers, "laps", player, score).is_ok());
    }
    for size in 0..=5 {
        let (scores, next) = names(list(&mut store, "laps", 0, size));
        assert_eq!(scores.len(), size);
        assert_eq!(next, size);
    }
    let (scores, next) = names(list(&mut store, "laps", 0, 6));
    assert_eq!(scores, ["a", "b", "c", "d", "e"]);
    assert_eq!(next, 5);
    let sent = store.log.len();
    assert_eq!(names(list(&mut store, "laps", 3, 0)), (vec![], 3));
    assert_eq!(
        store.log[sent..],
        [StoreCommand::Connect, StoreCommand::Get { key: String::from("board:laps:order") }]
    );
}

#[test]
fn pages_of_a_descending_board_start_at_the_greatest_score() {
    let mut store = Store::default();
    let token = created(&mut store, "darts", SortingOrder::Descending);
    let headers = bearer(&token);
    for (player, score) in [("e", 5.0), ("a", 1.0), ("d", 4.0), ("b", 2.0), ("c", 3.0)] {
        assert!(submit(&mut store, &headers, "darts", player, score).is_ok());
    }
    let (all, next) = names(list(&mut store, "darts", 0, 500));
    assert_eq!(all, ["e", "d", "c", "b", "a"]);
    assert_eq!(next, 5);
    let (some, next) = names(list(&mut store, "darts", 1, 3));
    assert_eq!(some, ["d", "c", "b"]);
    assert_eq!(next, 4);
}

#[test]
fn listing_a_board_that_does_not_exist_is_an_unexpected_state() {
    let mut store = Store::default();
    assert_eq!(list(&mut store, "nowhere", 0, 10), Err(Failure::StoreUnexpected));
}

#[test]
fn garbled_credential_is_unauthorized() {
    let mut store = Store::default();
    created(&mut store, "laps", SortingOrder::Ascending);
    let sent = store.log.len();
    for header in ["", "Bearer", "Bearer ", "Token abc", "abc"] {
        let headers = Headers { authorization: Authorization::Text(String::from(header)) };
        let answer = submit(&mut store, &headers, "laps", "alice", 1.0);
        assert_eq!(answer, Err(Failure::MalformedAuthorization));
        assert_eq!(answer.unwrap_err().status(), StatusCode::Unauthorized);
    }
    let missing = Headers { authorization: Authorization::Missing };
    assert_eq!(
        submit(&mut store, &missing, "laps", "alice", 1.0),
        Err(Failure::MissingAuthorization)
    );
    assert_eq!(store.log.len(), sent);
}

#[test]
fn credential_of_another_scheme_opens_nothing() {
    let mut store = Store::default();
    let token = created(&mut store, "laps", SortingOrder::Ascending);
    let sent = store.log.len();
    for header in [
        format!("NotBearer {token}"),
        format!("Basic {token}"),
        format!(" Bearer {token}"),
        format!("Basic x Bearer {token}"),
    ] {
        let headers = Headers { authorization: Authorization::Text(header) };
        let answer = submit(&mut store, &headers, "laps", "alice", 1.0);
        assert_eq!(answer, Err(Failure::MalformedAuthorization));
        assert_eq!(answer.unwrap_err().status(), StatusCode::Unauthorized);
    }
    let other = Headers { authorization: Authorization::Text(String::from("NotBearer master")) };
    let body = RouteBoardBody { name: String::from("darts"), order: SortingOrder::Ascending };
    let step: Step<BoardPost, f64> = route_board_post(&master(), &other, body);
    assert_eq!(step, Step::Finish(Err(Failure::MalformedAuthorization)));
    assert_eq!(store.log.len(), sent);
}

#[test]
fn wrong_credential_is_forbidden() {
    let mut store = Store::default();
    let token = created(&mut store, "laps", SortingOrder::Ascending);
    let other = created(&mut store, "darts", SortingOrder::Ascending);
    for guess in ["guess", "master", other.as_str(), &token[1..], &format!("{token}x")] {
        let answer = submit(&mut store, &bearer(guess), "laps", "alice", 1.0);
        assert_eq!(answer, Err(Failure::InvalidBoardToken));
        assert_eq!(answer.unwrap_err().status(), StatusCode::Forbidden);
    }
    assert_eq!(store.keys.get("board:laps:scores"), None);
}

#[test]
fn board_that_does_not_exist_is_not_found() {
    let mut store = Store::default();
    let token = created(&mut store, "laps", SortingOrder::Ascending);
    for credential in ["guess", "master", token.as_str()] {
        let answer = submit(&mut store, &bearer(credential), "nowhere", "alice", 1.0);
        assert_eq!(answer, Err(Failure::NoSuchBoard));
        assert_eq!(answer.unwrap_err().status(), StatusCode::NotFound);
    }
    assert_eq!(store.keys.len(), 2);
}

#[test]
fn reads_never_ask_for_a_token() {
    let mut store = Store::default();
    let token = created(&mut store, "laps", SortingOrder::Ascending);
    assert!(submit(&mut store, &bearer(&token), "laps", "alice", 1.0).is_ok());
    let sent = store.log.len();
    assert!(ask(&mut store, "laps", "alice").is_ok());
    assert!(ask(&mut store, "laps", "nobody").is_err());
    assert!(list(&mut store, "laps", 0, 10).is_ok());
    assert!(ask(&mut store, "x:token", "alice").is_err());
    assert!(list(&mut store, "laps:token", 0, 10).is_err());
    assert!(store.log.len() > sent);
    for command in &store.log[sent..] {
        let text = format!("{command:?}");
        assert!(!text.contains(":token"));
    }
}

#[test]
fn reads_never_show_the_token() {
    let mut store = Store::default();
    let token = created(&mut store, "laps", SortingOrder::Ascending);
    assert!(submit(&mut store, &bearer(&token), "laps", "alice", 1.0).is_ok());
    let answers = [
        ask(&mut store, "laps", "alice"),
        ask(&mut store, "laps", "token"),
        list(&mut store, "laps", 0, 500),
        submit(&mut store, &bearer(&token), "laps", "bob", 2.0),
        submit(&mut store, &bearer("guess"), "laps", "bob", 2.0),
        create(&mut store, "laps", SortingOrder::Ascending),
    ];
    for answer in answers {
        assert!(!format!("{answer:?}").contains(&token));
        if let Err(failure) = answer {
            assert!(!failure.message().contains(&token));
        }
    }
}

#[test]
fn reads_answer_the_same_whatever_the_tokens_are() {
    let mut store = Store::default();
    let token = created(&mut store, "laps", SortingOrder::Ascending);
    assert!(submit(&mut store, &bearer(&token), "laps", "alice", 1.0).is_ok());
    let mut other = store.clone();
    other.keys.insert(String::from("board:laps:token"), Stored::Text(String::from("another")));
    other.keys.remove("board:darts:token");
    other.keys.insert(String::from("board:x:token"), Stored::Scores(vec![]));
    assert_eq!(ask(&mut store, "laps", "alice"), ask(&mut other, "laps", "alice"));
    assert_eq!(ask(&mut store, "laps", "bob"), ask(&mut other, "laps", "bob"));
    assert_eq!(list(&mut store, "laps", 0, 10), list(&mut other, "laps", 0, 10));
    assert_eq!(list(&mut store, "x", 0, 10), list(&mut other, "x", 0, 10));
}

#[test]
fn store_answers_the_ping() {
    let mut store = Store::default();
    let who = store.connect();
    let mut step = route_home_patch::<f64>();
    let answer = loop {
        match step {
            Step::Finish(answer) => break answer,
            Step::Send(request, command) => step = request.resume(store.serve(who, command)),
        }
    };
    assert_eq!(answer, Ok(Success { status: StatusCode::Okay, data: Data::Null }));
    assert_eq!(store.log, [StoreCommand::Connect, StoreCommand::Ping]);
}

#[test]
fn creation_sends_its_commands_in_order() {
    let mut store = Store::default();
    let token = created(&mut store, "laps", SortingOrder::Ascending);
    assert_eq!(
        store.log,
        [
            StoreCommand::Connect,
            StoreCommand::Watch {
                order_key: String::from("board:laps:order"),
                token_key: String::from("board:laps:token"),
                scores_key: String::from("board:laps:scores"),
            },
            StoreCommand::KeyType { key: String::from("board:laps:order") },
            StoreCommand::KeyType { key: String::from("board:laps:token") },
            StoreCommand::KeyType { key: String::from("board:laps:scores") },
            StoreCommand::Multi,
            StoreCommand::SetKey {
                key: String::from("board:laps:order"),
                value: String::from("ASC"),
            },
            StoreCommand::SetKey { key: String::from("board:laps:token"), value: token },
            StoreCommand::Exec,
        ]
    );
}
