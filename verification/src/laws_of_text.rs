//! Laws of the small formats: numbers, trimming, cookies and paths. Each says what a text must
//! satisfy, or how it is read back, in terms of its characters alone.

use vstd::prelude::*;

use crate::arguments;
use crate::cookie;
use crate::crypto;
use crate::local_time;
use crate::session;
use crate::text;

verus! {

// ---------------------------------------------------------------------------
// Numbers
// ---------------------------------------------------------------------------

/// The number that a row of decimal digits stands for.
pub open spec fn decimal_value(digits: Seq<char>) -> int
    decreases digits.len(),
{
    if digits.len() == 0 {
        0
    } else {
        10 * decimal_value(digits.drop_last()) + (digits.last() as int - '0' as int)
    }
}

/// A number in decimal reads back as that number, in digits alone and without a leading zero.
pub proof fn law_decimals_read_back(n: nat)
    ensures
        decimal_value(text::decimal(n)) == n,
        text::decimal(n).len() > 0,
        forall|i: int| 0 <= i < text::decimal(n).len() ==> '0' <= #[trigger] text::decimal(n)[i] <= '9',
        text::decimal(n)[0] == '0' ==> n == 0 && text::decimal(n).len() == 1,
    decreases n,
{
    let digits = text::decimal(n);
    if n < 10 {
        assert(digits.drop_last() =~= Seq::empty());
        assert(decimal_value(digits.drop_last()) == 0);
    } else {
        law_decimals_read_back(n / 10);
        assert(digits.drop_last() =~= text::decimal(n / 10));
        assert(digits[0] == text::decimal(n / 10)[0]);
        assert forall|i: int| 0 <= i < digits.len() implies '0' <= #[trigger] digits[i] <= '9' by {
            if i < digits.len() - 1 {
                assert(digits[i] == text::decimal(n / 10)[i]);
            }
        }
    }
}

/// The number that a lower-case hexadecimal digit stands for.
pub open spec fn hex_value(digit: char) -> int {
    if '0' <= digit <= '9' {
        digit as int - '0' as int
    } else {
        digit as int - 'a' as int + 10
    }
}

/// Whether a character is a lower-case hexadecimal digit.
pub open spec fn is_hex_digit(c: char) -> bool {
    '0' <= c <= '9' || 'a' <= c <= 'f'
}

/// A token has two lower-case hexadecimal digits for every byte drawn, from which the bytes read
/// back: none is lost, and different draws give different tokens.
pub proof fn law_tokens_read_back(raw: Seq<u8>, other: Seq<u8>)
    ensures
        session::token_text(raw).len() == 2 * raw.len(),
        forall|i: int|
            0 <= i < session::token_text(raw).len() ==> is_hex_digit(
                #[trigger] session::token_text(raw)[i],
            ),
        forall|k: int|
            #![trigger raw[k]]
            0 <= k < raw.len() ==> raw[k] == 16 * hex_value(session::token_text(raw)[2 * k])
                + hex_value(session::token_text(raw)[2 * k + 1]),
        session::token_text(raw) == session::token_text(other) ==> raw == other,
{
    let token = session::token_text(raw);
    assert forall|k: int| #![trigger raw[k]] 0 <= k < raw.len() implies raw[k] == 16 * hex_value(
        token[2 * k],
    ) + hex_value(token[2 * k + 1]) by {
        assert((2 * k) / 2 == k && (2 * k) % 2 == 0);
        assert((2 * k + 1) / 2 == k && (2 * k + 1) % 2 == 1);
    }
    if token == session::token_text(other) {
        assert(session::token_text(other).len() == 2 * other.len());
        assert(raw.len() == other.len());
        assert forall|k: int| 0 <= k < raw.len() implies raw[k] == other[k] by {
            assert((2 * k) / 2 == k && (2 * k) % 2 == 0);
            assert((2 * k + 1) / 2 == k && (2 * k + 1) % 2 == 1);
            assert(session::token_text(other)[2 * k] == token[2 * k]);
            assert(session::token_text(other)[2 * k + 1] == token[2 * k + 1]);
        }
        assert(raw =~= other);
    }
}

/// The key of a session is the SHA-256 digest of all of its token.
pub proof fn law_keys_are_digests(token: Seq<char>)
    ensures
        session::key_of(token) == crypto::sha256(vstd::utf8::encode_utf8(token)),
{
}

// ---------------------------------------------------------------------------
// Line ends
// ---------------------------------------------------------------------------

/// Whether a character is a line feed or a carriage return.
pub open spec fn ends_a_line(c: char) -> bool {
    c == '\n' || c == '\r'
}

/// Trimming line ends leaves a beginning of the text that does not end in one, and takes nothing
/// else away.
pub proof fn law_line_ends_are_all_that_goes(whole: Seq<char>)
    ensures
        ({
            let kept = text::trim_line_ends(whole);
            &&& kept.len() <= whole.len()
            &&& kept == whole.take(kept.len() as int)
            &&& forall|i: int| kept.len() <= i < whole.len() ==> ends_a_line(#[trigger] whole[i])
            &&& kept.len() > 0 ==> !ends_a_line(kept.last())
        }),
    decreases whole.len(),
{
    let kept = text::trim_line_ends(whole);
    if whole.len() > 0 && ends_a_line(whole.last()) {
        let rest = whole.drop_last();
        law_line_ends_are_all_that_goes(rest);
        assert(kept == text::trim_line_ends(rest));
        assert(rest.take(kept.len() as int) =~= whole.take(kept.len() as int));
        assert forall|i: int| kept.len() <= i < whole.len() implies ends_a_line(
            #[trigger] whole[i],
        ) by {
            if i < rest.len() {
                assert(whole[i] == rest[i]);
            }
        }
    } else {
        assert(whole.take(whole.len() as int) =~= whole);
    }
}

// ---------------------------------------------------------------------------
// Cookies
// ---------------------------------------------------------------------------

/// What counts as white space: the blanks and line ends of ASCII, and those of Unicode.
pub proof fn law_what_white_space_is(c: char)
    ensures
        text::is_white_space_char(c) <==> {
            let code = c as u32;
            ||| code == 9 || code == 10 || code == 11 || code == 12 || code == 13 || code == 32
            ||| code == 133 || code == 160 || code == 5760
            ||| 8192 <= code <= 8202
            ||| code == 8232 || code == 8233 || code == 8239 || code == 8287 || code == 12288
        },
{
}

/// Whether a text is made of white space alone.
pub open spec fn is_blank(s: Seq<char>) -> bool {
    forall|i: int| 0 <= i < s.len() ==> text::is_white_space_char(#[trigger] s[i])
}

/// Whether a text has none of a character.
pub open spec fn lacks(s: Seq<char>, c: char) -> bool {
    forall|i: int| 0 <= i < s.len() ==> #[trigger] s[i] != c
}

/// Whether a text begins and ends with something else than white space.
pub open spec fn is_trimmed(s: Seq<char>) -> bool {
    s.len() > 0 ==> !text::is_white_space_char(s[0]) && !text::is_white_space_char(s.last())
}

/// White space in front is trimmed away.
proof fn lemma_trim_start(space: Seq<char>, s: Seq<char>)
    requires
        is_blank(space),
        s.len() > 0 ==> !text::is_white_space_char(s[0]),
    ensures
        text::trim_start(space + s) == s,
    decreases space.len(),
{
    if space.len() == 0 {
        assert(space + s =~= s);
    } else {
        let rest = space.drop_first();
        assert((space + s).drop_first() =~= rest + s);
        assert((space + s)[0] == space[0]);
        assert forall|i: int| 0 <= i < rest.len() implies text::is_white_space_char(
            #[trigger] rest[i],
        ) by {
            assert(rest[i] == space[i + 1]);
        }
        lemma_trim_start(rest, s);
    }
}

/// White space behind is trimmed away.
proof fn lemma_trim_end(s: Seq<char>, space: Seq<char>)
    requires
        is_blank(space),
        s.len() > 0 ==> !text::is_white_space_char(s.last()),
    ensures
        text::trim_end(s + space) == s,
    decreases space.len(),
{
    if space.len() == 0 {
        assert(s + space =~= s);
    } else {
        let rest = space.drop_last();
        assert((s + space).drop_last() =~= s + rest);
        assert((s + space).last() == space.last());
        assert(text::is_white_space_char(space[space.len() - 1]));
        assert forall|i: int| 0 <= i < rest.len() implies text::is_white_space_char(
            #[trigger] rest[i],
        ) by {
            assert(rest[i] == space[i]);
        }
        lemma_trim_end(s, rest);
    }
}

/// Trimming takes the white space around a text away, and nothing of the text.
pub proof fn law_trimming_leaves_the_text(before: Seq<char>, s: Seq<char>, behind: Seq<char>)
    requires
        is_blank(before),
        is_blank(behind),
        is_trimmed(s),
    ensures
        text::trim(before + s + behind) == s,
{
    if s.len() == 0 {
        let all = before + behind;
        assert(before + s + behind =~= all + Seq::empty());
        assert forall|i: int| 0 <= i < all.len() implies text::is_white_space_char(
            #[trigger] all[i],
        ) by {
            if i < before.len() {
                assert(all[i] == before[i]);
            } else {
                assert(all[i] == behind[i - before.len()]);
            }
        }
        lemma_trim_start(all, Seq::empty());
    } else {
        assert(before + s + behind =~= before + (s + behind));
        assert((s + behind)[0] == s[0]);
        lemma_trim_start(before, s + behind);
        lemma_trim_end(s, behind);
    }
}

/// Where a part of the header is divided, and what it is made of.
proof fn lemma_part_divides(name: Seq<char>, value: Seq<char>)
    requires
        lacks(name, '='),
    ensures
        text::first_index(name + seq!['='] + value, '=') == name.len(),
        (name + seq!['='] + value).take(name.len() as int) == name,
        (name + seq!['='] + value).skip(name.len() as int + 1) == value,
{
    let part = name + seq!['='] + value;
    assert forall|j: int| 0 <= j < name.len() implies part[j] != '=' by {
        assert(part[j] == name[j]);
    }
    text::lemma_first_index_is(part, '=', name.len() as int);
    assert(part.take(name.len() as int) =~= name);
    assert(part.skip(name.len() as int + 1) =~= value);
}

/// Where the first part of the header ends.
proof fn lemma_first_part(part: Seq<char>, rest: Seq<char>)
    requires
        lacks(part, ';'),
        rest.len() == 0 || rest[0] == ';',
    ensures
        text::first_index(part + rest, ';') == part.len(),
        (part + rest).take(part.len() as int) == part,
        rest.len() > 0 ==> (part + rest).skip(part.len() as int + 1) == rest.drop_first(),
{
    let header = part + rest;
    assert forall|j: int| 0 <= j < part.len() implies header[j] != ';' by {
        assert(header[j] == part[j]);
    }
    text::lemma_first_index_is(header, ';', part.len() as int);
    assert(header.take(part.len() as int) =~= part);
    if rest.len() > 0 {
        assert(header.skip(part.len() as int + 1) =~= rest.drop_first());
    }
}

/// The first cookie by the session's name gives the token: all of its value, without the white
/// space around name and value. Where the value is empty there is none, whatever follows.
pub proof fn law_the_session_cookie_is_read(
    before: Seq<char>,
    between: Seq<char>,
    front: Seq<char>,
    token: Seq<char>,
    behind: Seq<char>,
    rest: Seq<char>,
)
    requires
        is_blank(before),
        is_blank(between),
        is_blank(front),
        is_blank(behind),
        is_trimmed(token),
        lacks(token, ';'),
        rest.len() == 0 || rest[0] == ';',
    ensures
        cookie::session_token(
            before + "dnsblackhole_session"@ + between + seq!['='] + (front + token + behind)
                + rest,
        ) == if token.len() > 0 {
            Some(token)
        } else {
            None
        },
{
    reveal_strlit("dnsblackhole_session");
    let session_name = "dnsblackhole_session"@;
    let name = before + session_name + between;
    let value = front + token + behind;
    let part = name + seq!['='] + value;
    assert(before + session_name + between + seq!['='] + (front + token + behind) + rest =~= part
        + rest);
    assert forall|i: int| 0 <= i < name.len() implies #[trigger] name[i] != '=' && name[i]
        != ';' by {
        if i < before.len() {
            assert(name[i] == before[i]);
        } else if i < before.len() + session_name.len() {
            assert(name[i] == session_name[i - before.len()]);
        } else {
            assert(name[i] == between[i - before.len() - session_name.len()]);
        }
    }
    assert forall|i: int| 0 <= i < value.len() implies #[trigger] value[i] != ';' by {
        if i < front.len() {
            assert(value[i] == front[i]);
        } else if i < front.len() + token.len() {
            assert(value[i] == token[i - front.len()]);
        } else {
            assert(value[i] == behind[i - front.len() - token.len()]);
        }
    }
    assert forall|i: int| 0 <= i < part.len() implies #[trigger] part[i] != ';' by {
        if i < name.len() {
            assert(part[i] == name[i]);
        } else if i > name.len() {
            assert(part[i] == value[i - name.len() - 1]);
        }
    }
    lemma_part_divides(name, value);
    lemma_first_part(part, rest);
    law_trimming_leaves_the_text(before, session_name, between);
    law_trimming_leaves_the_text(front, token, behind);
}

/// A cookie by another name, or one without a value, is passed over, and the ones behind it are
/// read.
pub proof fn law_other_cookies_are_skipped(
    before: Seq<char>,
    other: Seq<char>,
    between: Seq<char>,
    value: Seq<char>,
    flag: Seq<char>,
    rest: Seq<char>,
)
    requires
        is_blank(before),
        is_blank(between),
        is_trimmed(other),
        other != "dnsblackhole_session"@,
        lacks(other, '='),
        lacks(other, ';'),
        lacks(value, ';'),
        lacks(flag, '='),
        lacks(flag, ';'),
    ensures
        cookie::session_token(
            before + other + between + seq!['='] + value + seq![';'] + rest,
        ) == cookie::session_token(rest),
        cookie::session_token(before + other + between + seq!['='] + value) is None,
        cookie::session_token(flag + seq![';'] + rest) == cookie::session_token(rest),
        cookie::session_token(flag) is None,
{
    let name = before + other + between;
    let part = name + seq!['='] + value;
    let tail = seq![';'] + rest;
    assert forall|i: int| 0 <= i < name.len() implies #[trigger] name[i] != '=' && name[i]
        != ';' by {
        if i < before.len() {
            assert(name[i] == before[i]);
        } else if i < before.len() + other.len() {
            assert(name[i] == other[i - before.len()]);
        } else {
            assert(name[i] == between[i - before.len() - other.len()]);
        }
    }
    assert forall|i: int| 0 <= i < part.len() implies #[trigger] part[i] != ';' by {
        if i < name.len() {
            assert(part[i] == name[i]);
        } else if i > name.len() {
            assert(part[i] == value[i - name.len() - 1]);
        }
    }
    assert(part + seq![';'] + rest =~= part + tail);
    assert(tail.drop_first() =~= rest);
    lemma_part_divides(name, value);
    lemma_first_part(part, tail);
    lemma_first_part(part, Seq::empty());
    assert(part + Seq::<char>::empty() =~= part);
    law_trimming_leaves_the_text(before, other, between);
    text::lemma_first_index_is(flag, '=', flag.len() as int);
    assert(flag + seq![';'] + rest =~= flag + tail);
    lemma_first_part(flag, tail);
    lemma_first_part(flag, Seq::empty());
    assert(flag + Seq::<char>::empty() =~= flag);
}

/// The cookie that is handed out brings its token back, marked `Secure` or not.
pub proof fn law_a_handed_out_cookie_brings_its_token_back(token: Seq<char>, secure: bool)
    requires
        token.len() > 0,
        is_trimmed(token),
        lacks(token, ';'),
    ensures
        cookie::session_token(cookie::session_cookie_text(token, secure)) == Some(token),
{
    reveal_strlit("dnsblackhole_session");
    reveal_strlit("=");
    reveal_strlit("; HttpOnly; SameSite=Strict; Path=/");
    reveal_strlit("; Secure");
    let none = Seq::<char>::empty();
    let plain = "; HttpOnly; SameSite=Strict; Path=/"@;
    let rest = if secure {
        plain + "; Secure"@
    } else {
        plain
    };
    law_the_session_cookie_is_read(none, none, none, token, none, rest);
    assert(none + "dnsblackhole_session"@ + none + seq!['='] + (none + token + none) + rest
        =~= cookie::session_cookie_text(token, secure));
}

/// Every token that a login or a setup answers comes back from the cookie that carries it.
pub proof fn law_every_token_comes_back(raw: Seq<u8>, secure: bool)
    requires
        raw.len() == 32,
    ensures
        cookie::session_token(
            cookie::session_cookie_text(session::token_text(raw), secure),
        ) == Some(session::token_text(raw)),
{
    let token = session::token_text(raw);
    law_tokens_read_back(raw, raw);
    assert(is_hex_digit(token[0]) && is_hex_digit(token[token.len() - 1]));
    assert forall|i: int| 0 <= i < token.len() implies #[trigger] token[i] != ';' by {
        assert(is_hex_digit(token[i]));
    }
    law_a_handed_out_cookie_brings_its_token_back(token, secure);
}

/// What follows the value in the cookie that is handed out: it is kept from scripts and from other
/// sites, holds for every path, has no end of its own, and is marked `Secure` where that is asked
/// for.
pub proof fn law_the_cookie_has_its_attributes(token: Seq<char>)
    ensures
        cookie::session_cookie_text(token, false).len() == 21 + token.len() + 35,
        cookie::session_cookie_text(token, false).take(21 + token.len() as int)
            == "dnsblackhole_session="@ + token,
        cookie::session_cookie_text(token, false).skip(21 + token.len() as int)
            == "; HttpOnly; SameSite=Strict; Path=/"@,
        cookie::session_cookie_text(token, true) == cookie::session_cookie_text(token, false)
            + "; Secure"@,
{
    reveal_strlit("dnsblackhole_session");
    reveal_strlit("dnsblackhole_session=");
    reveal_strlit("=");
    reveal_strlit("; HttpOnly; SameSite=Strict; Path=/");
    let whole = cookie::session_cookie_text(token, false);
    assert(whole.take(21 + token.len() as int) =~= "dnsblackhole_session="@ + token);
    assert(whole.skip(21 + token.len() as int) =~= "; HttpOnly; SameSite=Strict; Path=/"@);
}

/// The cookie that takes the session back holds no token and ends at once, with the attributes of
/// the one that was handed out.
pub proof fn law_a_cleared_cookie_holds_no_token(secure: bool)
    ensures
        cookie::session_token(cookie::cleared_cookie_text(secure)) is None,
        cookie::cleared_cookie_text(false) == cookie::session_cookie_text(Seq::empty(), false)
            + "; Max-Age=0"@,
        cookie::cleared_cookie_text(true) == cookie::cleared_cookie_text(false) + "; Secure"@,
{
    reveal_strlit("dnsblackhole_session");
    reveal_strlit("=");
    reveal_strlit("; HttpOnly; SameSite=Strict; Path=/");
    reveal_strlit("=; HttpOnly; SameSite=Strict; Path=/; Max-Age=0");
    reveal_strlit("; Max-Age=0");
    reveal_strlit("; Secure");
    assert(cookie::cleared_cookie_text(false) =~= cookie::session_cookie_text(Seq::empty(), false)
        + "; Max-Age=0"@);
    let none = Seq::<char>::empty();
    let whole = cookie::cleared_cookie_text(secure);
    let rest = whole.skip(21);
    law_the_session_cookie_is_read(none, none, none, none, none, rest);
    assert(none + "dnsblackhole_session"@ + none + seq!['='] + (none + none + none) + rest
        =~= whole);
}

// ---------------------------------------------------------------------------
// Paths and moments
// ---------------------------------------------------------------------------

/// Which paths stand for standard input and output: `-`, and such a path with a slash, or with a
/// slash and a dot, behind it. Nothing else does.
pub proof fn law_dashes(path: Seq<char>)
    ensures
        arguments::is_dash_path("-"@),
        !arguments::is_dash_path(Seq::empty()),
        path.len() > 0 ==> arguments::is_dash_path(path.push('/')) == arguments::is_dash_path(path),
        path.len() > 0 && path.last() != '/' ==> arguments::is_dash_path(path.push('/').push('.'))
            == arguments::is_dash_path(path),
        path.len() > 0 && lacks(path, '/') ==> (arguments::is_dash_path(path) <==> path == "-"@),
        path.len() > 1 && path.last() != '/' && path.last() != '.' ==> !arguments::is_dash_path(
            path,
        ),
        path.len() > 1 && path.last() == '.' && path[path.len() - 2] != '/'
            ==> !arguments::is_dash_path(path),
        !arguments::is_dash(None),
        arguments::is_dash(Some(path)) == arguments::is_dash_path(path),
{
    reveal_strlit("-");
    if path.len() > 0 {
        let longer = path.push('/');
        let dotted = path.push('/').push('.');
        if arguments::is_dash_path(path) {
            assert forall|i: int| 1 <= i < longer.len() implies {
                ||| (#[trigger] longer[i]) == '/'
                ||| longer[i] == '.' && longer[i - 1] == '/' && (i + 1 == longer.len()
                    || longer[i + 1] == '/')
            } by {
                if i < path.len() {
                    assert(longer[i] == path[i] && longer[i - 1] == path[i - 1]);
                    if i + 1 < path.len() {
                        assert(longer[i + 1] == path[i + 1]);
                    }
                }
            }
            assert forall|i: int| 1 <= i < dotted.len() implies {
                ||| (#[trigger] dotted[i]) == '/'
                ||| dotted[i] == '.' && dotted[i - 1] == '/' && (i + 1 == dotted.len()
                    || dotted[i + 1] == '/')
            } by {
                if i < path.len() {
                    assert(dotted[i] == path[i] && dotted[i - 1] == path[i - 1]);
                    if i + 1 < path.len() {
                        assert(dotted[i + 1] == path[i + 1]);
                    }
                }
            }
        }
        if arguments::is_dash_path(longer) {
            assert forall|i: int| 1 <= i < path.len() implies {
                ||| (#[trigger] path[i]) == '/'
                ||| path[i] == '.' && path[i - 1] == '/' && (i + 1 == path.len() || path[i + 1]
                    == '/')
            } by {
                assert(longer[i] == path[i] && longer[i - 1] == path[i - 1]);
                if i + 1 < path.len() {
                    assert(longer[i + 1] == path[i + 1]);
                }
            }
            assert(longer[0] == path[0]);
        }
        if arguments::is_dash_path(dotted) {
            assert forall|i: int| 1 <= i < path.len() implies {
                ||| (#[trigger] path[i]) == '/'
                ||| path[i] == '.' && path[i - 1] == '/' && (i + 1 == path.len() || path[i + 1]
                    == '/')
            } by {
                assert(dotted[i] == path[i] && dotted[i - 1] == path[i - 1]);
                if i + 1 < path.len() {
                    assert(dotted[i + 1] == path[i + 1]);
                }
            }
            assert(dotted[0] == path[0]);
        }
        if lacks(path, '/') && arguments::is_dash_path(path) {
            if path.len() > 1 {
                assert(path[1] != '/' && path[0] != '/');
            }
            assert(path =~= "-"@);
        }
        if path.len() > 1 && arguments::is_dash_path(path) {
            assert(path[path.len() - 1] == '/' || path[path.len() - 2] == '/');
        }
    }
}

/// A Unix second is shown by its own date and time in the machine's zone, whatever its offset of
/// less than a day; one past the last date, as its own number.
pub proof fn law_a_second_is_shown_by_its_date(seconds: u64, shown: Seq<char>)
    requires
        local_time::shown_possible(seconds, shown),
    ensures
        seconds <= 8_210_266_876_799 ==> exists|offset: i32|
            -86_400 < offset < 86_400 && shown == #[trigger] local_time::moment_text(
                seconds as i64,
                offset,
                "%Y-%m-%d %H:%M:%S"@,
            ),
        seconds > 8_210_266_876_799 ==> shown.take(5) == "Unix "@ && decimal_value(shown.skip(5))
            == seconds,
{
    let offset = choose|offset: i32|
        {
            &&& local_time::is_zone_offset(offset)
            &&& shown == #[trigger] local_time::shown_in_zone(seconds, offset)
        };
    if seconds <= 8_210_266_876_799 {
        assert(shown == local_time::moment_text(seconds as i64, offset, "%Y-%m-%d %H:%M:%S"@));
    } else {
        reveal_strlit("Unix ");
        law_decimals_read_back(seconds as nat);
        assert(shown.take(5) =~= "Unix "@);
        assert(shown.skip(5) =~= text::decimal(seconds as nat));
    }
}

/// In a given zone a Unix second is shown by its date and time there, and one past the last date as
/// its own number, whatever the zone.
pub proof fn law_a_second_is_shown_in_its_zone(seconds: u64, offset: i32)
    ensures
        seconds <= 8_210_266_876_799 ==> local_time::shown_in_zone(seconds, offset)
            == local_time::moment_text(seconds as i64, offset, "%Y-%m-%d %H:%M:%S"@),
        seconds > 8_210_266_876_799 ==> local_time::shown_in_zone(seconds, offset) == "Unix "@
            + text::decimal(seconds as nat),
{
}

} // verus!
