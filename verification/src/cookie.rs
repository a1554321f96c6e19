//! The session cookie: what `Set-Cookie` carries, and how the token is found again in a request's
//! `Cookie` header.

use vstd::prelude::*;

use crate::text::{self, chars_of, joined3, same_text, trimmed_bounds};

verus! {

/// The name of the session cookie.
pub const SESSION_COOKIE: &'static str = "dnsblackhole_session";

/// The value of `Set-Cookie` that hands out `token`.
pub open spec fn session_cookie_text(token: Seq<char>, secure: bool) -> Seq<char> {
    let plain = SESSION_COOKIE@ + "="@ + token + "; HttpOnly; SameSite=Strict; Path=/"@;
    if secure {
        plain + "; Secure"@
    } else {
        plain
    }
}

/// The value of `Set-Cookie` that takes the session cookie back.
pub open spec fn cleared_cookie_text(secure: bool) -> Seq<char> {
    let plain = SESSION_COOKIE@ + "=; HttpOnly; SameSite=Strict; Path=/; Max-Age=0"@;
    if secure {
        plain + "; Secure"@
    } else {
        plain
    }
}

/// The value of one `name=value` part of a `Cookie` header, where the name is the session
/// cookie's. White space around name and value does not count, and the first `=` divides them.
pub open spec fn session_value(part: Seq<char>) -> Option<Seq<char>> {
    let i = text::first_index(part, '=');
    if i < part.len() && text::trim(part.take(i)) == SESSION_COOKIE@ {
        Some(text::trim(part.skip(i + 1)))
    } else {
        None
    }
}

/// The session token of a `Cookie` header: the value of the first part, between semicolons, that
/// names the session cookie. An empty value is no token, even where a later part has one.
pub open spec fn session_token(header: Seq<char>) -> Option<Seq<char>>
    decreases header.len(),
{
    let end = text::first_index(header, ';');
    match session_value(header.take(end)) {
        Some(value) => if value.len() > 0 {
            Some(value)
        } else {
            None
        },
        None => if 0 <= end < header.len() {
            session_token(header.skip(end + 1))
        } else {
            None
        },
    }
}

/// The session token of an optional `Cookie` header.
pub open spec fn header_token(cookie_header: Option<&str>) -> Option<Seq<char>> {
    match cookie_header {
        Some(header) => session_token(header@),
        None => None,
    }
}

/// The value of `Set-Cookie` for a new session.
///
/// There is no `Max-Age`: the cookie goes when the browser closes.
pub fn session_cookie(token: &str, secure: bool) -> (cookie: String)
    ensures
        cookie@ == session_cookie_text(token@, secure),
{
    let mut cookie = joined3(SESSION_COOKIE, "=", token);
    cookie.append("; HttpOnly; SameSite=Strict; Path=/");
    if secure {
        cookie.append("; Secure");
    }
    cookie
}

/// The value of `Set-Cookie` that makes the browser drop the session cookie.
pub fn cleared_session_cookie(secure: bool) -> (cookie: String)
    ensures
        cookie@ == cleared_cookie_text(secure),
{
    let mut cookie = String::from_str(SESSION_COOKIE);
    cookie.append("=; HttpOnly; SameSite=Strict; Path=/; Max-Age=0");
    if secure {
        cookie.append("; Secure");
    }
    cookie
}

/// Where `c` first stands in `chars[from..to]`, or `to`.
fn find_char(chars: &Vec<char>, from: usize, to: usize, c: char) -> (at: usize)
    requires
        from <= to <= chars.len(),
    ensures
        from <= at <= to,
        at - from == text::first_index(chars@.subrange(from as int, to as int), c),
{
    let ghost part = chars@.subrange(from as int, to as int);
    proof {
        text::lemma_first_index(part, c);
    }
    let mut at: usize = from;
    while at < to && chars[at] != c
        invariant
            from <= at <= to <= chars.len(),
            part == chars@.subrange(from as int, to as int),
            forall|j: int| 0 <= j < at - from ==> part[j] != c,
        decreases to - at,
    {
        assert(part[at - from] == chars@[at as int]);
        at = at + 1;
    }
    proof {
        if at < to {
            assert(part[at - from] == c);
        }
    }
    at
}

/// Finds the session token in a `Cookie` header.
pub fn session_token_from_cookies(header: &str) -> (token: Option<String>)
    ensures
        match token {
            Some(value) => session_token(header@) == Some(value@),
            None => session_token(header@) is None,
        },
{
    let chars: Vec<char> = chars_of(header);
    let mut from: usize = 0;
    assert(header@.skip(0) =~= header@);
    loop
        invariant
            chars@ == header@,
            from <= chars.len(),
            session_token(header@) == session_token(header@.skip(from as int)),
        decreases chars.len() - from,
    {
        let ghost rest = header@.skip(from as int);
        let end: usize = find_char(&chars, from, chars.len(), ';');
        let equals: usize = find_char(&chars, from, end, '=');
        proof {
            assert(chars@.subrange(from as int, chars.len() as int) =~= rest);
            assert(chars@.subrange(from as int, end as int) =~= rest.take(end - from));
        }
        let ghost part = rest.take(end - from);
        if equals < end {
            let name: (usize, usize) = trimmed_bounds(&chars, from, equals);
            let value: (usize, usize) = trimmed_bounds(&chars, equals + 1, end);
            proof {
                assert(chars@.subrange(from as int, equals as int) =~= part.take(equals - from));
                assert(chars@.subrange(equals + 1, end as int) =~= part.skip(equals - from + 1));
            }
            if same_text(header.substring_char(name.0, name.1), SESSION_COOKIE) {
                if value.0 == value.1 {
                    return None;
                }
                return Some(String::from_str(header.substring_char(value.0, value.1)));
            }
        }
        assert(session_value(part) is None);
        if end == chars.len() {
            return None;
        }
        assert(rest.skip(end - from + 1) =~= header@.skip(end + 1));
        from = end + 1;
    }
}

/// The session token of a request's `Cookie` header, where it has one.
pub fn token_of_header(cookie_header: Option<&str>) -> (token: Option<String>)
    ensures
        match token {
            Some(value) => header_token(cookie_header) == Some(value@),
            None => header_token(cookie_header) is None,
        },
{
    match cookie_header {
        Some(header) => session_token_from_cookies(header),
        None => None,
    }
}

} // verus!
