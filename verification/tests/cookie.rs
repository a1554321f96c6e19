use dnsblackhole::cookie::{
    cleared_session_cookie, session_cookie, session_token_from_cookies, token_of_header,
    SESSION_COOKIE,
};

#[test]
fn cookie_parser_picks_the_session_cookie() {
    assert_eq!(
        session_token_from_cookies("theme=dark; dnsblackhole_session=abc123; other=1"),
        Some("abc123".to_string())
    );
    assert_eq!(session_token_from_cookies("theme=dark"), None);
    assert_eq!(session_token_from_cookies("dnsblackhole_session="), None);
}

#[test]
fn cookie_attributes_follow_the_secure_switch() {
    assert_eq!(
        session_cookie("abc", false),
        "dnsblackhole_session=abc; HttpOnly; SameSite=Strict; Path=/"
    );
    assert!(session_cookie("abc", true).ends_with("; Secure"));
    assert!(cleared_session_cookie(false).contains("Max-Age=0"));
}

#[test]
fn the_first_session_cookie_counts() {
    assert_eq!(
        session_token_from_cookies("dnsblackhole_session=a; dnsblackhole_session=b"),
        Some("a".to_string())
    );
    assert_eq!(
        session_token_from_cookies("dnsblackhole_session=; dnsblackhole_session=b"),
        None
    );
    assert_eq!(
        session_token_from_cookies("flag; dnsblackhole_session=b"),
        Some("b".to_string())
    );
}

#[test]
fn white_space_and_equals_signs_in_cookies() {
    assert_eq!(
        session_token_from_cookies(" \t dnsblackhole_session \u{3000}=  a=b \n;x"),
        Some("a=b".to_string())
    );
    assert_eq!(session_token_from_cookies("dnsblackhole_session=   "), None);
    assert_eq!(session_token_from_cookies("Dnsblackhole_session=a"), None);
    assert_eq!(session_token_from_cookies(""), None);
    assert_eq!(session_token_from_cookies(";;;"), None);
    assert_eq!(
        session_token_from_cookies("主题=暗;dnsblackhole_session=令牌"),
        Some("令牌".to_string())
    );
}

#[test]
fn cookies_are_worded_exactly() {
    assert_eq!(
        session_cookie("abc", true),
        "dnsblackhole_session=abc; HttpOnly; SameSite=Strict; Path=/; Secure"
    );
    assert_eq!(
        cleared_session_cookie(false),
        "dnsblackhole_session=; HttpOnly; SameSite=Strict; Path=/; Max-Age=0"
    );
    assert_eq!(
        cleared_session_cookie(true),
        "dnsblackhole_session=; HttpOnly; SameSite=Strict; Path=/; Max-Age=0; Secure"
    );
}

#[test]
fn optional_headers() {
    assert_eq!(token_of_header(None), None);
    assert_eq!(
        token_of_header(Some("dnsblackhole_session=abc")),
        Some("abc".to_string())
    );
}

/// The parser written with the string methods of the standard library.
fn token_by_splitting(header: &str) -> Option<String> {
    header
        .split(';')
        .filter_map(|part| part.split_once('='))
        .find(|(name, _)| name.trim() == SESSION_COOKIE)
        .map(|(_, value)| value.trim().to_string())
        .filter(|value| !value.is_empty())
}

#[test]
fn the_parser_agrees_with_splitting() {
    let pieces = ["", " ", "=", ";", "dnsblackhole_session", "x", "\u{85}"];
    let mut headers = vec![String::new()];
    for _ in 0..4 {
        let mut longer = Vec::new();
        for header in &headers {
            for piece in pieces {
                longer.push(format!("{header}{piece}"));
            }
        }
        headers = longer;
    }
    for header in headers {
        assert_eq!(
            session_token_from_cookies(&header),
            token_by_splitting(&header),
            "{header:?}"
        );
    }
}
