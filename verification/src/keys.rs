//! The keys under which a board rests in the store: one for its sorting
//! order, one for its token, one for its scores.

use vstd::prelude::*;

verus! {

/// The key of the sorting order of the board `name`.
pub open spec fn spec_order_key(name: Seq<char>) -> Seq<char> {
    "board:"@ + name + ":order"@
}

/// The key of the token of the board `name`.
pub open spec fn spec_token_key(name: Seq<char>) -> Seq<char> {
    "board:"@ + name + ":token"@
}

/// The key of the scores of the board `name`.
pub open spec fn spec_scores_key(name: Seq<char>) -> Seq<char> {
    "board:"@ + name + ":scores"@
}

/// Whether `key` is the token key of some board.
pub open spec fn is_token_key(key: Seq<char>) -> bool {
    exists|name: Seq<char>| key == #[trigger] spec_token_key(name)
}

/// The key of the sorting order of the board `name`.
pub fn order_key(name: &str) -> (key: String)
    ensures
        key@ == spec_order_key(name@),
{
    let mut key = "board:".to_string();
    key.append(name);
    key.append(":order");
    key
}

/// The key of the token of the board `name`.
pub fn token_key(name: &str) -> (key: String)
    ensures
        key@ == spec_token_key(name@),
{
    let mut key = "board:".to_string();
    key.append(name);
    key.append(":token");
    key
}

/// The key of the scores of the board `name`.
pub fn scores_key(name: &str) -> (key: String)
    ensures
        key@ == spec_scores_key(name@),
{
    let mut key = "board:".to_string();
    key.append(name);
    key.append(":scores");
    key
}

/// No key of one kind is a key of another kind, whatever the boards: the
/// three kinds end in different letters.
pub proof fn lemma_key_kinds_differ(a: Seq<char>, b: Seq<char>)
    ensures
        spec_order_key(a) != spec_token_key(b),
        spec_scores_key(a) != spec_token_key(b),
        spec_order_key(a) != spec_scores_key(b),
{
    reveal_strlit("board:");
    reveal_strlit(":order");
    reveal_strlit(":token");
    reveal_strlit(":scores");
    assert(spec_order_key(a).last() == 'r');
    assert(spec_token_key(b).last() == 'n');
    assert(spec_scores_key(a).last() == 's');
    assert(spec_scores_key(b).last() == 's');
}

/// Two boards share a key only if they share their name.
pub proof fn lemma_keys_name_the_board(a: Seq<char>, b: Seq<char>)
    ensures
        spec_order_key(a) == spec_order_key(b) ==> a == b,
        spec_token_key(a) == spec_token_key(b) ==> a == b,
        spec_scores_key(a) == spec_scores_key(b) ==> a == b,
{
    reveal_strlit("board:");
    reveal_strlit(":order");
    reveal_strlit(":token");
    reveal_strlit(":scores");
    lemma_framed_name("board:"@, a, b, ":order"@);
    lemma_framed_name("board:"@, a, b, ":token"@);
    lemma_framed_name("board:"@, a, b, ":scores"@);
}

proof fn lemma_framed_name(prefix: Seq<char>, a: Seq<char>, b: Seq<char>, suffix: Seq<char>)
    ensures
        prefix + a + suffix == prefix + b + suffix ==> a == b,
{
    let ka = prefix + a + suffix;
    let kb = prefix + b + suffix;
    if ka == kb {
        assert(ka.len() == kb.len());
        assert(a.len() == b.len());
        assert forall|i: int| 0 <= i < a.len() implies a[i] == b[i] by {
            assert(ka[prefix.len() + i] == a[i]);
            assert(kb[prefix.len() + i] == b[i]);
        }
        assert(a =~= b);
    }
}

} // verus!
