use leaderboard::keys::order_key;
use leaderboard::keys::scores_key;
use leaderboard::keys::token_key;

#[test]
fn keys_frame_the_name_of_the_board() {
    assert_eq!(order_key("my-board"), "board:my-board:order");
    assert_eq!(token_key("my-board"), "board:my-board:token");
    assert_eq!(scores_key("my-board"), "board:my-board:scores");
}

#[test]
fn keys_of_the_empty_name() {
    assert_eq!(order_key(""), "board::order");
    assert_eq!(token_key(""), "board::token");
    assert_eq!(scores_key(""), "board::scores");
}

#[test]
fn kinds_of_keys_differ() {
    for a in ["", "a", "x-order", "x-token", "x-scores", "token", "order"] {
        for b in ["", "a", "x-order", "x-token", "x-scores", "token", "order"] {
            assert_ne!(order_key(a), token_key(b));
            assert_ne!(scores_key(a), token_key(b));
            assert_ne!(order_key(a), scores_key(b));
        }
    }
}

#[test]
fn keys_name_the_board() {
    for a in ["", "a", "ab", "a-b", "b"] {
        for b in ["", "a", "ab", "a-b", "b"] {
            assert_eq!(order_key(a) == order_key(b), a == b);
            assert_eq!(token_key(a) == token_key(b), a == b);
            assert_eq!(scores_key(a) == scores_key(b), a == b);
        }
    }
}
