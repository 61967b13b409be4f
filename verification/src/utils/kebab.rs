//! Canonical names: every board and player name is folded to one case and
//! stripped of punctuation before it is used as a key, so that names which
//! differ only by case or punctuation meet in one key on purpose.

use vstd::prelude::*;
use crate::utils::strings::ascii_lower_char;
use crate::utils::strings::ascii_lowercase;
use crate::utils::strings::ascii_upper_char;
use crate::utils::strings::ascii_uppercase;

verus! {

/// Whether `c` may stand in a kebab string as it is: an ASCII letter, an
/// ASCII digit or a dash.
pub open spec fn is_kebab_char(c: char) -> bool {
    ('A' <= c && c <= 'Z') || ('a' <= c && c <= 'z') || ('0' <= c && c <= '9') || c == '-'
}

/// The character that stands for `c` in a kebab string.
pub open spec fn kebab_char(c: char) -> char {
    if is_kebab_char(c) {
        c
    } else {
        '-'
    }
}

/// `s` with every character outside the kebab alphabet replaced by a dash.
pub open spec fn kebab_anycase(s: Seq<char>) -> Seq<char> {
    Seq::new(s.len(), |i: int| kebab_char(s[i]))
}

/// The canonical form of a name: lowercased, then skewered.
pub open spec fn kebab_lowercase(s: Seq<char>) -> Seq<char> {
    kebab_anycase(ascii_lowercase(s))
}

/// The upper-case twin of [`kebab_lowercase`].
pub open spec fn kebab_uppercase(s: Seq<char>) -> Seq<char> {
    kebab_anycase(ascii_uppercase(s))
}

/// Whether `c` may stand in a canonical name: a small ASCII letter, an ASCII
/// digit or a dash.
pub open spec fn is_canonical_char(c: char) -> bool {
    ('a' <= c && c <= 'z') || ('0' <= c && c <= '9') || c == '-'
}

/// Whether `s` is a canonical name.
pub open spec fn is_canonical(s: Seq<char>) -> bool {
    forall|i: int| 0 <= i < s.len() ==> is_canonical_char(#[trigger] s[i])
}

fn skewer_char(c: char) -> (r: char)
    ensures
        r == kebab_char(c),
{
    if ('A' <= c && c <= 'Z') || ('a' <= c && c <= 'z') || ('0' <= c && c <= '9') || c == '-' {
        c
    } else {
        '-'
    }
}

/// Skewering strings into `UPPER-KEBAB-CASE` or `lower-kebab-case`.
pub trait Skewer {
    /// The characters of the string.
    spec fn text(&self) -> Seq<char>;

    /// Replace the characters outside `[A-Za-z0-9-]` with dashes.
    fn to_kebab_anycase(&self) -> (kebab: String)
        ensures
            kebab@ == kebab_anycase(self.text()),
    ;

    /// Lowercase the string, then skewer it: the canonical form of a name.
    fn to_kebab_lowercase(&self) -> (kebab: String)
        ensures
            kebab@ == kebab_lowercase(self.text()),
            is_canonical(kebab@),
    ;

    /// Uppercase the string, then skewer it.
    fn to_kebab_uppercase(&self) -> (kebab: String)
        ensures
            kebab@ == kebab_uppercase(self.text()),
    ;
}

impl Skewer for &str {
    open spec fn text(&self) -> Seq<char> {
        (*self)@
    }

    fn to_kebab_anycase(&self) -> (kebab: String) {
        let mut kebab = String::new();
        for c in it: self.chars()
            invariant
                it.seq() == self@,
                kebab@ == kebab_anycase(self@.take(it.index())),
        {
            assert(self@.take(it.index() + 1) =~= self@.take(it.index()).push(c));
            kebab.push(skewer_char(c));
            assert(kebab@ =~= kebab_anycase(self@.take(it.index() + 1)));
        }
        assert(self@.take(self@.len() as int) =~= self@);
        kebab
    }

    fn to_kebab_lowercase(&self) -> (kebab: String) {
        let kebab = self.to_ascii_lowercase().as_str().to_kebab_anycase();
        proof {
            lemma_kebab_lowercase_is_canonical(self@);
        }
        kebab
    }

    fn to_kebab_uppercase(&self) -> (kebab: String) {
        self.to_ascii_uppercase().as_str().to_kebab_anycase()
    }
}

impl Skewer for String {
    open spec fn text(&self) -> Seq<char> {
        self@
    }

    fn to_kebab_anycase(&self) -> (kebab: String) {
        self.as_str().to_kebab_anycase()
    }

    fn to_kebab_lowercase(&self) -> (kebab: String) {
        self.as_str().to_kebab_lowercase()
    }

    fn to_kebab_uppercase(&self) -> (kebab: String) {
        self.as_str().to_kebab_uppercase()
    }
}

/// Every canonical form is a canonical name.
pub proof fn lemma_kebab_lowercase_is_canonical(s: Seq<char>)
    ensures
        is_canonical(kebab_lowercase(s)),
        kebab_lowercase(s).len() == s.len(),
{
    let k = kebab_lowercase(s);
    assert forall|i: int| 0 <= i < k.len() implies is_canonical_char(#[trigger] k[i]) by {
        lemma_lower_then_kebab_char(s[i]);
    }
}

/// Canonicalizing a canonical name yields the same name.
pub proof fn lemma_canonical_name_is_fixed(s: Seq<char>)
    requires
        is_canonical(s),
    ensures
        kebab_lowercase(s) == s,
{
    assert forall|i: int| 0 <= i < s.len() implies kebab_lowercase(s)[i] == s[i] by {
        assert(is_canonical_char(s[i]));
    }
    assert(kebab_lowercase(s) =~= s);
}

/// Canonicalizing twice equals canonicalizing once.
pub proof fn lemma_kebab_lowercase_idempotent(s: Seq<char>)
    ensures
        kebab_lowercase(kebab_lowercase(s)) == kebab_lowercase(s),
{
    lemma_kebab_lowercase_is_canonical(s);
    lemma_canonical_name_is_fixed(kebab_lowercase(s));
}

/// Skewering twice equals skewering once, whatever the case.
pub proof fn lemma_kebab_anycase_idempotent(s: Seq<char>)
    ensures
        kebab_anycase(kebab_anycase(s)) == kebab_anycase(s),
{
    assert(kebab_anycase(kebab_anycase(s)) =~= kebab_anycase(s));
}

/// Uppercasing and skewering twice equals doing so once.
pub proof fn lemma_kebab_uppercase_idempotent(s: Seq<char>)
    ensures
        kebab_uppercase(kebab_uppercase(s)) == kebab_uppercase(s),
{
    let k = kebab_uppercase(s);
    assert forall|i: int| 0 <= i < k.len() implies kebab_uppercase(k)[i] == k[i] by {
        lemma_upper_then_kebab_char(s[i]);
    }
    assert(kebab_uppercase(k) =~= k);
}

/// Names that differ only in the case of their ASCII letters have one
/// canonical form.
pub proof fn lemma_case_is_folded(a: Seq<char>, b: Seq<char>)
    requires
        ascii_lowercase(a) == ascii_lowercase(b),
    ensures
        kebab_lowercase(a) == kebab_lowercase(b),
{
}

proof fn lemma_lower_then_kebab_char(c: char)
    ensures
        is_canonical_char(kebab_char(ascii_lower_char(c))),
        ascii_lower_char(kebab_char(ascii_lower_char(c))) == kebab_char(ascii_lower_char(c)),
{
}

proof fn lemma_upper_then_kebab_char(c: char)
    ensures
        kebab_char(ascii_upper_char(kebab_char(ascii_upper_char(c)))) == kebab_char(
            ascii_upper_char(c),
        ),
{
}

} // verus!
