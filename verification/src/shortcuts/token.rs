//! The credential of a request: where it stands in the request's headers and
//! how it is read out of them.

use vstd::prelude::*;
use vstd::string::StrSliceExecFns;
use crate::outcome::Failure;
use crate::utils::strings::characters;
use crate::utils::token::SecureToken;
use crate::utils::token::is_token;

verus! {

/// The authorization header of a request, as far as the guard reads it.
#[derive(Clone, Debug, PartialEq, Eq)]
pub enum Authorization {
    /// The request has no such header.
    Missing,
    /// The header is there, but it is not visible text.
    Opaque,
    /// The text of the header.
    Text(String),
}

/// The headers of a request, as far as the engine reads them.
#[derive(Clone, Debug, PartialEq, Eq)]
pub struct Headers {
    pub authorization: Authorization,
}

/// Whether `c` is white space: a character with the Unicode property
/// `White_Space`.
pub open spec fn is_space(c: char) -> bool {
    ||| '\u{9}' <= c <= '\u{d}'
    ||| c == ' '
    ||| c == '\u{85}'
    ||| c == '\u{a0}'
    ||| c == '\u{1680}'
    ||| '\u{2000}' <= c <= '\u{200a}'
    ||| c == '\u{2028}'
    ||| c == '\u{2029}'
    ||| c == '\u{202f}'
    ||| c == '\u{205f}'
    ||| c == '\u{3000}'
}

/// Whether `text` begins with a credential of the scheme: the name of the
/// scheme, one space, then at least one character that is not white space.
/// Nothing may stand before the name of the scheme.
pub open spec fn has_credential(text: Seq<char>, scheme: Seq<char>) -> bool {
    &&& scheme.len() + 1 < text.len()
    &&& text.subrange(0, scheme.len() as int) == scheme
    &&& text[scheme.len() as int] == ' '
    &&& !is_space(text[scheme.len() as int + 1])
}

/// Whether the run of characters that are not white space which starts at
/// `start` ends just before `end`.
pub open spec fn token_span(text: Seq<char>, start: int, end: int) -> bool {
    &&& 0 <= start < end <= text.len()
    &&& forall|i: int| start <= i < end ==> !is_space(#[trigger] text[i])
    &&& (end == text.len() || is_space(text[end]))
}

/// Whether `token` is the token of the credential that `text` begins with:
/// what follows the scheme's name and one space, up to the next white space
/// or the end of the text. What stands behind the token is free.
pub open spec fn is_credential(text: Seq<char>, scheme: Seq<char>, token: Seq<char>) -> bool {
    &&& has_credential(text, scheme)
    &&& exists|end: int|
        {
            &&& #[trigger] token_span(text, scheme.len() as int + 1, end)
            &&& token == text.subrange(scheme.len() as int + 1, end)
        }
}

/// The token of the credential of the scheme that `text` begins with, if it
/// begins with one. There is one such token and no other: see
/// [`lemma_credential_is_the_token`] and [`lemma_credential_is_unique`].
pub open spec fn credential(text: Seq<char>, scheme: Seq<char>) -> Option<Seq<char>> {
    if has_credential(text, scheme) {
        Some(choose|token: Seq<char>| is_credential(text, scheme, token))
    } else {
        None
    }
}

/// What the guard answers for a header and a scheme: the token of the
/// credential that the header begins with, or why there is none. A header
/// of another scheme, or one with anything before the scheme, is malformed.
pub open spec fn spec_get_authorization(authorization: Authorization, scheme: Seq<char>) -> Result<
    Seq<char>,
    Failure,
> {
    match authorization {
        Authorization::Missing => Err(Failure::MissingAuthorization),
        Authorization::Opaque => Err(Failure::MalformedAuthorization),
        Authorization::Text(text) => match credential(text@, scheme) {
            Some(token) => Ok(token),
            None => Err(Failure::MalformedAuthorization),
        },
    }
}

/// The characters that an answer of the guard holds.
pub open spec fn answer_view(answer: Result<&str, Failure>) -> Result<Seq<char>, Failure> {
    match answer {
        Ok(token) => Ok(token@),
        Err(failure) => Err(failure),
    }
}

/// Reading the credential out of a request.
pub trait Authorize<'h> {
    /// The authorization header of the request.
    spec fn authorization(&self) -> Authorization;

    /// Read the authorization header as a credential of the form
    /// `<scheme> <token>` and return its token. The caller compares the
    /// token with the secret that it expects.
    fn get_authorization_or_401(&'h self, scheme: &str) -> (answer: Result<&'h str, Failure>)
        ensures
            answer_view(answer) == spec_get_authorization(self.authorization(), scheme@),
    ;
}

impl<'h> Authorize<'h> for Headers {
    open spec fn authorization(&self) -> Authorization {
        self.authorization
    }

    fn get_authorization_or_401(&'h self, scheme: &str) -> (answer: Result<&'h str, Failure>) {
        match &self.authorization {
            Authorization::Missing => Err(Failure::MissingAuthorization),
            Authorization::Opaque => Err(Failure::MalformedAuthorization),
            Authorization::Text(header) => {
                let text = characters(header.as_str());
                let name = characters(scheme);
                if begins_credential(&text, &name) {
                    let start: usize = name.len() + 1;
                    let end = token_end(&text, start);
                    let token = header.as_str().substring_char(start, end);
                    proof {
                        lemma_credential_is_unique(header@, scheme@, token@, token@);
                    }
                    Ok(token)
                } else {
                    Err(Failure::MalformedAuthorization)
                }
            },
        }
    }
}

/// Generating a secret for a request.
pub trait Generate where Self: Sized {
    /// Whether the value has the form that a generated value has.
    spec fn well_formed(&self) -> bool;

    /// Generate a value, or say that none could be generated.
    fn new_or_500() -> (generated: Result<Self, Failure>)
        ensures
            generated matches Ok(value) ==> value.well_formed(),
            generated matches Err(failure) ==> failure == Failure::TokenGeneration,
    ;
}

impl Generate for SecureToken {
    open spec fn well_formed(&self) -> bool {
        is_token(self@)
    }

    fn new_or_500() -> (generated: Result<SecureToken, Failure>) {
        token_or_500(SecureToken::new())
    }
}

/// What the generation of a token ends in for a request: the token, or the
/// failure that stands for an error of the random source.
pub fn token_or_500(generated: Result<SecureToken, rand::Error>) -> (answer: Result<
    SecureToken,
    Failure,
>)
    ensures
        match generated {
            Ok(token) => answer == Ok::<SecureToken, Failure>(token),
            Err(_) => answer == Err::<SecureToken, Failure>(Failure::TokenGeneration),
        },
{
    match generated {
        Ok(token) => Ok(token),
        Err(_) => Err(Failure::TokenGeneration),
    }
}

/// Whether `c` is white space.
pub fn is_whitespace(c: char) -> (space: bool)
    ensures
        space == is_space(c),
{
    ('\u{9}' <= c && c <= '\u{d}') || c == ' ' || c == '\u{85}' || c == '\u{a0}' || c
        == '\u{1680}' || ('\u{2000}' <= c && c <= '\u{200a}') || c == '\u{2028}' || c
        == '\u{2029}' || c == '\u{202f}' || c == '\u{205f}' || c == '\u{3000}'
}

/// Whether the name of the scheme stands in `text` at `at`.
fn scheme_at(text: &Vec<char>, scheme: &Vec<char>, at: usize) -> (found: bool)
    requires
        at + scheme.len() <= text.len(),
    ensures
        found == (text@.subrange(at as int, at + scheme.len()) == scheme@),
{
    let mut i: usize = 0;
    while i < scheme.len()
        invariant
            i <= scheme.len(),
            at + scheme.len() <= text.len(),
            forall|j: int| 0 <= j < i ==> text@[at + j] == scheme@[j],
        decreases scheme.len() - i,
    {
        if text[at + i] != scheme[i] {
            assert(text@.subrange(at as int, at + scheme.len())[i as int] != scheme@[i as int]);
            return false;
        }
        i += 1;
    }
    assert(text@.subrange(at as int, at + scheme.len()) =~= scheme@);
    true
}

/// Whether `text` begins with a credential of the scheme.
pub fn begins_credential(text: &Vec<char>, scheme: &Vec<char>) -> (begins: bool)
    ensures
        begins == has_credential(text@, scheme@),
{
    if text.len() <= scheme.len() || text.len() - scheme.len() < 2 {
        return false;
    }
    scheme_at(text, scheme, 0) && text[scheme.len()] == ' ' && !is_whitespace(
        text[scheme.len() + 1],
    )
}

/// Where the run of characters that are not white space which starts at
/// `start` ends: at `start` itself if no such character stands there.
pub fn token_end(text: &Vec<char>, start: usize) -> (end: usize)
    ensures
        start <= end,
        start <= text.len() ==> end <= text.len(),
        forall|i: int| start <= i < end ==> !is_space(#[trigger] text@[i]),
        end < text.len() ==> is_space(text@[end as int]),
        start < text.len() && !is_space(text@[start as int]) ==> token_span(
            text@,
            start as int,
            end as int,
        ),
{
    let mut end: usize = start;
    while end < text.len() && !is_whitespace(text[end])
        invariant
            start <= end,
            start <= text.len() ==> end <= text.len(),
            forall|i: int| start <= i < end ==> !is_space(#[trigger] text@[i]),
        decreases text.len() - end,
    {
        end += 1;
    }
    end
}

/// A header holds at most one credential: two tokens that the guard may
/// answer for one header and one scheme are the same token, and it is the
/// token that [`credential`] names.
pub proof fn lemma_credential_is_unique(
    text: Seq<char>,
    scheme: Seq<char>,
    a: Seq<char>,
    b: Seq<char>,
)
    requires
        is_credential(text, scheme, a),
        is_credential(text, scheme, b),
    ensures
        a == b,
        credential(text, scheme) == Some(a),
{
    lemma_same_credential(text, scheme, a, b);
    let named = choose|token: Seq<char>| is_credential(text, scheme, token);
    lemma_same_credential(text, scheme, a, named);
}

/// What [`credential`] names is the token of the credential that the text
/// begins with, and it names none only if the text begins with no
/// credential of the scheme.
pub proof fn lemma_credential_is_the_token(text: Seq<char>, scheme: Seq<char>)
    ensures
        match credential(text, scheme) {
            Some(token) => is_credential(text, scheme, token),
            None => !has_credential(text, scheme),
        },
{
    if has_credential(text, scheme) {
        let start: int = scheme.len() as int + 1;
        let end = lemma_token_ends(text, start, start + 1);
        assert(is_credential(text, scheme, text.subrange(start, end)));
    }
}

/// The form of a credential: whenever the guard answers with a token, the
/// header begins with the name of the scheme, one space and that token; the
/// token is not empty and holds no white space; and behind it the header
/// ends or white space follows.
pub proof fn lemma_credential_begins_the_header(text: Seq<char>, scheme: Seq<char>)
    ensures
        credential(text, scheme) matches Some(token) ==> {
            &&& token.len() > 0
            &&& forall|i: int| 0 <= i < token.len() ==> !is_space(#[trigger] token[i])
            &&& scheme.len() as int + 1 + token.len() <= text.len()
            &&& text.subrange(0, scheme.len() as int + 1 + token.len()) == scheme + seq![' '] + token
            &&& scheme.len() as int + 1 + token.len() < text.len() ==> is_space(
                text[scheme.len() as int + 1 + token.len()],
            )
        },
{
    lemma_credential_is_the_token(text, scheme);
    if credential(text, scheme) is Some {
        let token = credential(text, scheme)->0;
        let start: int = scheme.len() as int + 1;
        let end = choose|end: int|
            {
                &&& #[trigger] token_span(text, start, end)
                &&& token == text.subrange(start, end)
            };
        assert forall|i: int| 0 <= i < token.len() implies !is_space(#[trigger] token[i]) by {
            assert(token[i] == text[start + i]);
        }
        assert(text.subrange(0, end) =~= scheme + seq![' '] + token) by {
            assert(text.subrange(0, scheme.len() as int) == scheme);
            assert forall|i: int| 0 <= i < end implies text.subrange(0, end)[i] == (scheme + seq![
                ' ',
            ] + token)[i] by {
                if i < scheme.len() {
                    assert(text.subrange(0, scheme.len() as int)[i] == text[i]);
                }
            }
        }
    }
}

/// A header of another scheme is no credential: if what stands before the
/// first space of the header is not the name of the scheme, the guard
/// answers with no token.
pub proof fn lemma_other_scheme_is_no_credential(
    text: Seq<char>,
    scheme: Seq<char>,
    other: Seq<char>,
)
    requires
        other != scheme,
        other.len() <= text.len(),
        text.subrange(0, other.len() as int) == other,
        forall|i: int| 0 <= i < other.len() ==> other[i] != ' ',
        forall|i: int| 0 <= i < scheme.len() ==> scheme[i] != ' ',
        other.len() == text.len() || text[other.len() as int] == ' ',
    ensures
        credential(text, scheme) is None,
{
    if has_credential(text, scheme) {
        assert(text.subrange(0, scheme.len() as int) == scheme);
        if scheme.len() < other.len() {
            assert(other[scheme.len() as int] == text.subrange(0, other.len() as int)[scheme.len() as int]);
        } else if other.len() < scheme.len() {
            assert(scheme[other.len() as int] == text.subrange(0, scheme.len() as int)[other.len() as int]);
        } else {
            assert(other =~= scheme);
        }
    }
}

/// Every run of characters that are not white space ends.
proof fn lemma_token_ends(text: Seq<char>, start: int, reached: int) -> (end: int)
    requires
        0 <= start < reached <= text.len(),
        forall|i: int| start <= i < reached ==> !is_space(#[trigger] text[i]),
    ensures
        token_span(text, start, end),
    decreases text.len() - reached,
{
    if reached == text.len() || is_space(text[reached]) {
        reached
    } else {
        lemma_token_ends(text, start, reached + 1)
    }
}

proof fn lemma_same_credential(text: Seq<char>, scheme: Seq<char>, a: Seq<char>, b: Seq<char>)
    requires
        is_credential(text, scheme, a),
        is_credential(text, scheme, b),
    ensures
        a == b,
{
    let start: int = scheme.len() as int + 1;
    let end_a = choose|end: int|
        {
            &&& #[trigger] token_span(text, start, end)
            &&& a == text.subrange(start, end)
        };
    let end_b = choose|end: int|
        {
            &&& #[trigger] token_span(text, start, end)
            &&& b == text.subrange(start, end)
        };
    if end_a < end_b {
        assert(!is_space(text[end_a]));
    } else if end_b < end_a {
        assert(!is_space(text[end_b]));
    }
}

} // verus!
