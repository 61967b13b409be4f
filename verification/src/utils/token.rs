//! Secure tokens: the secret that opens a board.

use vstd::prelude::*;

verus! {

/// How many symbols a token has.
pub const TOKEN_LENGTH: usize = 16;

/// Alphabet for base-62 encoding.
pub const TOKEN_CHARS: [char; 62] = [
    '0', '1', '2', '3', '4', '5', '6', '7', '8', '9', 'A', 'B', 'C', 'D', 'E', 'F', 'G', 'H', 'I',
    'J', 'K', 'L', 'M', 'N', 'O', 'P', 'Q', 'R', 'S', 'T', 'U', 'V', 'W', 'X', 'Y', 'Z', 'a', 'b',
    'c', 'd', 'e', 'f', 'g', 'h', 'i', 'j', 'k', 'l', 'm', 'n', 'o', 'p', 'q', 'r', 's', 't', 'u',
    'v', 'w', 'x', 'y', 'z',
];

/// The symbol that a random word selects: the word is reduced modulo the
/// size of the alphabet.
pub open spec fn token_symbol(word: u32) -> char {
    TOKEN_CHARS@[(word % 62) as int]
}

/// The token that a sequence of random words selects, symbol by symbol.
pub open spec fn token_of(words: Seq<u32>) -> Seq<char> {
    Seq::new(words.len(), |i: int| token_symbol(words[i]))
}

/// Whether `c` is a symbol of the alphabet: an ASCII digit or letter.
pub open spec fn is_token_symbol(c: char) -> bool {
    ('0' <= c && c <= '9') || ('A' <= c && c <= 'Z') || ('a' <= c && c <= 'z')
}

/// Whether `token` has the form of a token: sixteen symbols of the alphabet.
pub open spec fn is_token(token: Seq<char>) -> bool {
    &&& token.len() == TOKEN_LENGTH
    &&& forall|i: int| 0 <= i < token.len() ==> is_token_symbol(#[trigger] token[i])
}

/// `rand::Error`: the error of a random number generator. Nothing is read of
/// it.
#[verifier::external_type_specification]
#[verifier::external_body]
pub struct ExRandError(rand::Error);

/// `rand::Fill::try_fill` on sixteen words with `rand::rngs::OsRng`: asks the
/// operating system for random bytes to fill the words with, and says
/// whether it got them. Nothing is claimed of the words.
#[verifier::external_body]
fn try_fill(words: &mut [u32; 16]) -> (filled: Result<(), rand::Error>) {
    let mut rng = rand::rngs::OsRng::default();
    rand::Fill::try_fill(words, &mut rng)
}

/// A cryptographically secure, base-62 token.
#[derive(Clone, Debug, PartialEq, Eq)]
pub struct SecureToken(pub String);

impl View for SecureToken {
    type V = Seq<char>;

    open spec fn view(&self) -> Seq<char> {
        self.0@
    }
}

impl SecureToken {
    /// Generate a token from the random source of the operating system. If
    /// the source fails, so does the generation: no weaker source is tried.
    pub fn new() -> (generated: Result<SecureToken, rand::Error>)
        ensures
            generated matches Ok(token) ==> is_token(token@),
    {
        let mut words: [u32; 16] = [0; 16];
        match try_fill(&mut words) {
            Ok(()) => Ok(SecureToken::from_words(&words)),
            Err(error) => Err(error),
        }
    }

    /// The token that sixteen random words select: each word selects the
    /// symbol at its remainder modulo 62.
    pub fn from_words(words: &[u32; 16]) -> (token: SecureToken)
        ensures
            token@ == token_of(words@),
            is_token(token@),
    {
        let mut symbols = String::new();
        let mut i: usize = 0;
        while i < 16
            invariant
                i <= 16,
                symbols@ == token_of(words@.take(i as int)),
            decreases 16 - i,
        {
            let symbol = TOKEN_CHARS[(words[i] % 62) as usize];
            symbols.push(symbol);
            assert(words@.take(i + 1) =~= words@.take(i as int).push(words@[i as int]));
            assert(symbols@ =~= token_of(words@.take(i + 1)));
            i += 1;
        }
        assert(words@.take(16) =~= words@);
        proof {
            lemma_token_of_is_token(words@);
        }
        SecureToken(symbols)
    }
}

/// Every symbol of the alphabet is an ASCII digit or letter.
pub proof fn lemma_token_symbol(word: u32)
    ensures
        is_token_symbol(token_symbol(word)),
{
    let i = (word % 62) as int;
    assert(0 <= i < 62);
    assert(is_token_symbol(TOKEN_CHARS@[i]));
}

/// Sixteen words select a token of the right form.
pub proof fn lemma_token_of_is_token(words: Seq<u32>)
    requires
        words.len() == TOKEN_LENGTH,
    ensures
        is_token(token_of(words)),
{
    let token = token_of(words);
    assert forall|i: int| 0 <= i < token.len() implies is_token_symbol(#[trigger] token[i]) by {
        lemma_token_symbol(words[i]);
    }
}

} // verus!
