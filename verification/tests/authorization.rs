use leaderboard::outcome::Failure;
use leaderboard::utils::strings::characters;
use leaderboard::shortcuts::token::begins_credential;
use leaderboard::shortcuts::token::is_whitespace;
use leaderboard::shortcuts::token::token_end;
use leaderboard::shortcuts::token::Authorization;
use leaderboard::shortcuts::token::Authorize;
use leaderboard::shortcuts::token::Headers;

fn text(header: &str) -> Headers {
    Headers { authorization: Authorization::Text(String::from(header)) }
}

#[test]
fn missing_header_is_unauthorized() {
    let headers = Headers { authorization: Authorization::Missing };
    assert_eq!(headers.get_authorization_or_401("Bearer"), Err(Failure::MissingAuthorization));
    assert_eq!(Failure::MissingAuthorization.status().as_u16(), 401);
}

#[test]
fn opaque_header_is_unauthorized() {
    let headers = Headers { authorization: Authorization::Opaque };
    assert_eq!(headers.get_authorization_or_401("Bearer"), Err(Failure::MalformedAuthorization));
    assert_eq!(Failure::MalformedAuthorization.status().as_u16(), 401);
}

#[test]
fn token_follows_the_scheme() {
    assert_eq!(text("Bearer abc123").get_authorization_or_401("Bearer"), Ok("abc123"));
    assert_eq!(text("Bearer x").get_authorization_or_401("Bearer"), Ok("x"));
    assert_eq!(text("Token abc123").get_authorization_or_401("Token"), Ok("abc123"));
}

#[test]
fn token_ends_at_white_space() {
    assert_eq!(text("Bearer abc def").get_authorization_or_401("Bearer"), Ok("abc"));
    assert_eq!(text("Bearer abc\tdef").get_authorization_or_401("Bearer"), Ok("abc"));
    assert_eq!(text("Bearer abc ").get_authorization_or_401("Bearer"), Ok("abc"));
    assert_eq!(text("Bearer abc\u{a0}def").get_authorization_or_401("Bearer"), Ok("abc"));
    assert_eq!(text("Bearer abc\u{3000}def").get_authorization_or_401("Bearer"), Ok("abc"));
}

#[test]
fn token_may_hold_anything_but_white_space() {
    assert_eq!(
        text("Bearer a.b-c_d~e+f/g=").get_authorization_or_401("Bearer"),
        Ok("a.b-c_d~e+f/g=")
    );
    assert_eq!(text("Bearer tökén").get_authorization_or_401("Bearer"), Ok("tökén"));
}

#[test]
fn credential_stands_at_the_start_of_the_header() {
    assert_eq!(
        text("Bearer first, Bearer second").get_authorization_or_401("Bearer"),
        Ok("first,")
    );
    assert_eq!(text("Bearer Bearer").get_authorization_or_401("Bearer"), Ok("Bearer"));
}

#[test]
fn credential_of_another_scheme_is_unauthorized() {
    for header in [
        "NotBearer abc",
        "xxBearer abc",
        "Basic dXNlcg== Bearer second",
        "Basic Bearer abc",
        " Bearer abc",
        "\tBearer abc",
        "Bearer  Bearer abc",
        "Bearers abc",
        "Token abc",
    ] {
        let headers = text(header);
        let answer = headers.get_authorization_or_401("Bearer");
        assert_eq!(answer, Err(Failure::MalformedAuthorization));
        assert_eq!(answer.unwrap_err().status().as_u16(), 401);
    }
}

#[test]
fn token_follows_the_scheme_and_one_space() {
    for (header, scheme) in [
        ("Bearer abc123", "Bearer"),
        ("Bearer abc def", "Bearer"),
        ("Token x\ty", "Token"),
        ("Bearer tökén rest", "Bearer"),
    ] {
        let headers = text(header);
        let token = headers.get_authorization_or_401(scheme).expect("a credential");
        assert!(!token.is_empty());
        assert!(!token.chars().any(char::is_whitespace));
        assert!(header.starts_with(&format!("{scheme} {token}")));
        let rest = &header[scheme.len() + 1 + token.len()..];
        assert!(rest.is_empty() || rest.starts_with(char::is_whitespace));
    }
}

#[test]
fn garbled_header_is_unauthorized() {
    for header in [
        "",
        "Bearer",
        "Bearer ",
        "Bearer  ",
        "Bearer \tabc",
        "Bearerabc",
        "bearer abc",
        "BEARER abc",
        "Basic abc",
        "abc",
        " Beare abc",
    ] {
        assert_eq!(
            text(header).get_authorization_or_401("Bearer"),
            Err(Failure::MalformedAuthorization)
        );
    }
}

#[test]
fn scheme_is_taken_literally() {
    assert_eq!(text("Bearer abc").get_authorization_or_401("Bear"), Err(Failure::MalformedAuthorization));
    assert_eq!(text("Bearer abc").get_authorization_or_401("earer"), Err(Failure::MalformedAuthorization));
    assert_eq!(text("B.arer abc").get_authorization_or_401("B.arer"), Ok("abc"));
    assert_eq!(text("Bearer abc").get_authorization_or_401("B.arer"), Err(Failure::MalformedAuthorization));
    assert_eq!(text("x abc").get_authorization_or_401(""), Err(Failure::MalformedAuthorization));
    assert_eq!(text(" abc").get_authorization_or_401(""), Ok("abc"));
    assert_eq!(text("abc").get_authorization_or_401(""), Err(Failure::MalformedAuthorization));
}

#[test]
fn characters_of_a_string() {
    assert_eq!(characters("añ日"), vec!['a', 'ñ', '日']);
    assert_eq!(characters(""), Vec::<char>::new());
}

#[test]
fn white_space_is_what_unicode_says() {
    for c in [' ', '\t', '\n', '\u{b}', '\u{c}', '\r', '\u{85}', '\u{a0}', '\u{1680}', '\u{2000}', '\u{200a}', '\u{2028}', '\u{2029}', '\u{202f}', '\u{205f}', '\u{3000}'] {
        assert!(is_whitespace(c));
    }
    for c in ['a', '0', '-', '\u{8}', '\u{e}', '\u{200b}', '\u{feff}', '\u{1f}', '\u{84}', '\u{86}'] {
        assert!(!is_whitespace(c));
    }
}

#[test]
fn white_space_agrees_with_the_standard_library() {
    for code in 0u32..0x11000 {
        if let Some(c) = char::from_u32(code) {
            assert_eq!(is_whitespace(c), c.is_whitespace());
        }
    }
}

#[test]
fn credentials_begin_the_text() {
    let scheme = characters("Bearer");
    assert!(begins_credential(&characters("Bearer abc"), &scheme));
    assert!(begins_credential(&characters("Bearer a"), &scheme));
    assert!(begins_credential(&characters("Bearer Bearer abc"), &scheme));
    assert!(!begins_credential(&characters("  Bearer abc"), &scheme));
    assert!(!begins_credential(&characters("NotBearer abc"), &scheme));
    assert!(!begins_credential(&characters("Bearer  Bearer abc"), &scheme));
    assert!(!begins_credential(&characters("Bearer "), &scheme));
    assert!(!begins_credential(&characters("Bearer"), &scheme));
    assert!(!begins_credential(&characters("Beare"), &scheme));
    assert!(!begins_credential(&characters(""), &scheme));
    assert!(begins_credential(&characters(" a"), &characters("")));
    assert!(!begins_credential(&characters(" "), &characters("")));
}

#[test]
fn tokens_end_where_white_space_begins() {
    assert_eq!(token_end(&characters("Bearer abc def"), 7), 10);
    assert_eq!(token_end(&characters("Bearer abc"), 7), 10);
    assert_eq!(token_end(&characters("Bearer a"), 7), 8);
    assert_eq!(token_end(&characters("abc"), 0), 3);
}

#[test]
fn no_token_where_white_space_stands() {
    assert_eq!(token_end(&characters("Bearer abc"), 6), 6);
    assert_eq!(token_end(&characters("abc"), 3), 3);
    assert_eq!(token_end(&characters("abc"), 7), 7);
    assert_eq!(token_end(&characters(""), 0), 0);
}
