//! Cache policy on the headers of a response.
//!
//! A response that must never be cached loses the headers of conditional
//! requests and is marked as expired long ago. A response that may be cached
//! forever loses the same headers and is marked as good for a year.

use crate::clock::{
    has_rfc2822_text, is_printable_ascii, one_year_after, rfc2822, rfc2822_of, ONE_YEAR,
};
use http::{HeaderMap, HeaderValue};
use vstd::prelude::*;
use vstd::utf8::encode_utf8;

verus! {

/// The headers of a request or a response.
#[verifier::external_type_specification]
#[verifier::external_body]
#[verifier::reject_recursive_types(T)]
pub struct ExHeaderMap<T>(HeaderMap<T>);

/// The value of one header.
#[verifier::external_type_specification]
#[verifier::external_body]
pub struct ExHeaderValue(HeaderValue);

/// What a header map holds: under each header name, in lower case, the bytes
/// of its values in the order in which they were added. A name that the map
/// holds has at least one value.
pub uninterp spec fn header_fields(headers: HeaderMap<HeaderValue>) -> Map<
    Seq<char>,
    Seq<Seq<u8>>,
>;

/// Whether `c` may stand in a header name that is written in lower case.
pub open spec fn is_header_name_char(c: char) -> bool {
    ||| 'a' <= c && c <= 'z'
    ||| '0' <= c && c <= '9'
    ||| c == '!'
    ||| c == '#'
    ||| c == '$'
    ||| c == '%'
    ||| c == '&'
    ||| c == '\''
    ||| c == '*'
    ||| c == '+'
    ||| c == '-'
    ||| c == '.'
    ||| c == '^'
    ||| c == '_'
    ||| c == '`'
    ||| c == '|'
    ||| c == '~'
}

/// Whether `name` is a header name in lower case of at most 64 characters.
pub open spec fn is_header_name(name: Seq<char>) -> bool {
    1 <= name.len() <= 64 && forall|i: int|
        0 <= i < name.len() ==> is_header_name_char(#[trigger] name[i])
}

/// Whether a header value of these bytes reads as text: visible ASCII and
/// tabs only.
pub open spec fn is_visible_text(bytes: Seq<u8>) -> bool {
    forall|i: int|
        0 <= i < bytes.len() ==> (32 <= #[trigger] bytes[i] && bytes[i] < 127) || bytes[i] == 9
}

/// Whether `value` may be the value of a header: it holds no control
/// character but the tab.
pub open spec fn is_header_value(value: Seq<char>) -> bool {
    forall|i: int|
        0 <= i < value.len() ==> (' ' <= #[trigger] value[i] && value[i] != '\u{7f}') || value[i]
            == '\t'
}

/// The number of names up to which a header map is sure to take one more,
/// whatever state it is in. The map grows to 32768 slots and no further, and
/// when its names collide it wants to grow as soon as a fifth of the slots
/// is taken.
pub const SURE_ROOM: usize = 6553;

/// Whether the headers are sure to take `more` names.
pub open spec fn has_room(fields: Map<Seq<char>, Seq<Seq<u8>>>, more: nat) -> bool {
    fields.dom().finite() && fields.dom().len() + more <= SURE_ROOM + 1
}

/// ASCII bytes as text.
pub open spec fn ascii_text(bytes: Seq<u8>) -> Seq<char> {
    Seq::new(bytes.len(), |i: int| bytes[i] as char)
}

/// Calls `HeaderMap::remove` with the name as a string slice. The name is a
/// valid header name in lower case, which the map looks up as it is. The
/// name and all its values are gone afterwards; nothing else changes.
#[verifier::external_body]
pub(crate) fn remove_header(headers: &mut HeaderMap<HeaderValue>, name: &str)
    requires
        is_header_name(name@),
    ensures
        header_fields(*final(headers)) == header_fields(*old(headers)).remove(name@),
{
    headers.remove(name);
}

/// Makes a value with `HeaderValue::from_str` and puts it under the name
/// with `HeaderMap::try_insert`. The name is a valid header name in lower
/// case, for which `try_insert` does not panic. Where both calls succeed
/// the value stands alone under the name, in place of whatever stood there;
/// where one fails the map holds what it held. `from_str` fails on a
/// control character other than the tab and on nothing else; `try_insert`
/// fails only where the map cannot grow, which is not so while it holds at
/// most `SURE_ROOM` names.
#[verifier::external_body]
pub(crate) fn set_header(
    headers: &mut HeaderMap<HeaderValue>,
    name: &'static str,
    value: &str,
) -> (set: bool)
    requires
        is_header_name(name@),
    ensures
        set ==> header_fields(*final(headers)) == header_fields(*old(headers)).insert(
            name@,
            seq![encode_utf8(value@)],
        ),
        !set ==> header_fields(*final(headers)) == header_fields(*old(headers)),
        is_header_value(value@) && has_room(header_fields(*old(headers)), 1) ==> set,
{
    match HeaderValue::from_str(value) {
        Ok(made) => headers.try_insert(name, made).is_ok(),
        Err(_) => false,
    }
}

/// Calls `HeaderMap::get` with the name as a string slice and, on the value
/// found, `HeaderValue::to_str`. The name is a valid header name in lower
/// case. The result is `None` where the map does not hold the name,
/// `Some(None)` where the first value under the name holds a byte that is
/// neither visible ASCII nor a tab, and the first value as text otherwise.
#[verifier::external_body]
pub(crate) fn header_text(headers: &HeaderMap<HeaderValue>, name: &str) -> (text: Option<
    Option<String>,
>)
    requires
        is_header_name(name@),
    ensures
        text is Some <==> header_fields(*headers).contains_key(name@),
        text is Some ==> header_fields(*headers)[name@].len() > 0,
        text matches Some(first) ==> (first is Some <==> is_visible_text(
            header_fields(*headers)[name@][0],
        )),
        text matches Some(Some(read)) ==> read@ == ascii_text(header_fields(*headers)[name@][0]),
{
    match headers.get(name) {
        Some(value) => match value.to_str() {
            Ok(read) => Some(Some(read.to_string())),
            Err(_) => Some(None),
        },
        None => None,
    }
}

/// Why the headers of a response could not be set.
#[derive(Clone, Copy, Debug, PartialEq, Eq, Structural)]
pub enum CacheControlError {
    /// The header map took no further header.
    HeaderRefused,
    /// The time at which the response expires has no text.
    ExpiresOutOfRange,
}

/// The headers without those of conditional requests.
pub open spec fn without_conditional_headers(fields: Map<Seq<char>, Seq<Seq<u8>>>) -> Map<
    Seq<char>,
    Seq<Seq<u8>>,
> {
    fields.remove("etag"@).remove("if-modified-since"@).remove("if-match"@).remove(
        "if-none-match"@,
    ).remove("if-range"@).remove("if-unmodified-since"@)
}

/// The headers with one value under `name`, in place of what stood there.
pub open spec fn with_header(
    fields: Map<Seq<char>, Seq<Seq<u8>>>,
    name: Seq<char>,
    value: Seq<char>,
) -> Map<Seq<char>, Seq<Seq<u8>>> {
    fields.insert(name, seq![encode_utf8(value)])
}

/// The headers of a response that must never be cached.
pub open spec fn never_cache_fields(fields: Map<Seq<char>, Seq<Seq<u8>>>) -> Map<
    Seq<char>,
    Seq<Seq<u8>>,
> {
    with_header(
        with_header(
            with_header(
                without_conditional_headers(fields),
                "expires"@,
                "Thu, 01 Jan 1970 00:00:00 GMT"@,
            ),
            "cache-control"@,
            "no-cache, no-store, must-revalidate, private, max-age=0"@,
        ),
        "pragma"@,
        "no-cache"@,
    )
}

/// The headers of a response that may be cached for a year from `now`.
pub open spec fn forever_cache_fields(fields: Map<Seq<char>, Seq<Seq<u8>>>, now: int) -> Map<
    Seq<char>,
    Seq<Seq<u8>>,
> {
    with_header(
        with_header(without_conditional_headers(fields), "expires"@, rfc2822_of(now + ONE_YEAR)),
        "cache-control"@,
        "public, max-age=31536000, must-revalidate, immutable"@,
    )
}

/// Whether the policy headers aside, `after` holds what `before` held
/// without the headers of conditional requests.
pub open spec fn stripped_apart_from_policy(
    before: Map<Seq<char>, Seq<Seq<u8>>>,
    after: Map<Seq<char>, Seq<Seq<u8>>>,
) -> bool {
    after.remove("expires"@).remove("cache-control"@).remove("pragma"@)
        == without_conditional_headers(before).remove("expires"@).remove("cache-control"@).remove(
        "pragma"@,
    )
}

/// Headers that lose a name have the room that they had.
pub proof fn lemma_room_after_remove(
    fields: Map<Seq<char>, Seq<Seq<u8>>>,
    name: Seq<char>,
    more: nat,
)
    requires
        has_room(fields, more),
    ensures
        has_room(fields.remove(name), more),
{
    assert(fields.remove(name).dom() =~= fields.dom().remove(name));
}

/// Headers that take a name have room for one name less than before.
pub proof fn lemma_room_after_insert(
    fields: Map<Seq<char>, Seq<Seq<u8>>>,
    name: Seq<char>,
    values: Seq<Seq<u8>>,
    more: nat,
)
    requires
        has_room(fields, more + 1),
    ensures
        has_room(fields.insert(name, values), more),
{
    assert(fields.insert(name, values).dom() =~= fields.dom().insert(name));
}

/// Headers without those of conditional requests have the room that they
/// had.
pub proof fn lemma_room_without_conditional_headers(
    fields: Map<Seq<char>, Seq<Seq<u8>>>,
    more: nat,
)
    requires
        has_room(fields, more),
    ensures
        has_room(without_conditional_headers(fields), more),
{
    let a = fields.remove("etag"@);
    let b = a.remove("if-modified-since"@);
    let c = b.remove("if-match"@);
    let d = c.remove("if-none-match"@);
    let e = d.remove("if-range"@);
    lemma_room_after_remove(fields, "etag"@, more);
    lemma_room_after_remove(a, "if-modified-since"@, more);
    lemma_room_after_remove(b, "if-match"@, more);
    lemma_room_after_remove(c, "if-none-match"@, more);
    lemma_room_after_remove(d, "if-range"@, more);
    lemma_room_after_remove(e, "if-unmodified-since"@, more);
}

/// The values that this module sets may be the values of headers.
pub proof fn lemma_policy_values()
    ensures
        is_header_value("Thu, 01 Jan 1970 00:00:00 GMT"@),
        is_header_value("no-cache, no-store, must-revalidate, private, max-age=0"@),
        is_header_value("no-cache"@),
        is_header_value("public, max-age=31536000, must-revalidate, immutable"@),
{
    reveal_strlit("Thu, 01 Jan 1970 00:00:00 GMT");
    reveal_strlit("no-cache, no-store, must-revalidate, private, max-age=0");
    reveal_strlit("no-cache");
    reveal_strlit("public, max-age=31536000, must-revalidate, immutable");
}

/// The names of the headers that this module reads and writes are header
/// names in lower case, and no two of them are the same.
pub proof fn lemma_header_names()
    ensures
        is_header_name("etag"@),
        is_header_name("if-modified-since"@),
        is_header_name("if-match"@),
        is_header_name("if-none-match"@),
        is_header_name("if-range"@),
        is_header_name("if-unmodified-since"@),
        is_header_name("expires"@),
        is_header_name("cache-control"@),
        is_header_name("pragma"@),
        "etag"@ != "expires"@,
        "etag"@ != "cache-control"@,
        "etag"@ != "pragma"@,
        "expires"@ != "cache-control"@,
        "expires"@ != "pragma"@,
        "cache-control"@ != "pragma"@,
{
    reveal_strlit("etag");
    reveal_strlit("if-modified-since");
    reveal_strlit("if-match");
    reveal_strlit("if-none-match");
    reveal_strlit("if-range");
    reveal_strlit("if-unmodified-since");
    reveal_strlit("expires");
    reveal_strlit("cache-control");
    reveal_strlit("pragma");
    assert("etag"@[1] != "expires"@[1]);
    assert("etag"@[0] != "cache-control"@[0]);
    assert("etag"@[0] != "pragma"@[0]);
    assert("expires"@[0] != "cache-control"@[0]);
    assert("expires"@[0] != "pragma"@[0]);
    assert("cache-control"@[0] != "pragma"@[0]);
}

/// A response that must never be cached carries no `ETag`, whatever it
/// carried before, and the cache-control value that forbids caching.
pub proof fn lemma_never_cache_strips_etag(fields: Map<Seq<char>, Seq<Seq<u8>>>)
    ensures
        !never_cache_fields(fields).contains_key("etag"@),
        never_cache_fields(fields).contains_key("cache-control"@),
        never_cache_fields(fields)["cache-control"@] == seq![
            encode_utf8("no-cache, no-store, must-revalidate, private, max-age=0"@),
        ],
{
    lemma_header_names();
}

/// A response that may be cached forever carries no `ETag` and expires one
/// year of 365 days after `now`.
pub proof fn lemma_forever_cache_expires_in_a_year(fields: Map<Seq<char>, Seq<Seq<u8>>>, now: int)
    ensures
        !forever_cache_fields(fields, now).contains_key("etag"@),
        forever_cache_fields(fields, now)["expires"@] == seq![
            encode_utf8(rfc2822_of(now + 365 * 86_400)),
        ],
{
    lemma_header_names();
}

/// Takes the headers of conditional requests off a response: `ETag`,
/// `If-Modified-Since`, `If-Match`, `If-None-Match`, `If-Range` and
/// `If-Unmodified-Since`. All other headers stay.
pub fn remove_etag_headers(headers: &mut HeaderMap<HeaderValue>)
    ensures
        header_fields(*final(headers)) == without_conditional_headers(header_fields(*old(headers))),
{
    proof {
        lemma_header_names();
    }
    remove_header(headers, "etag");
    remove_header(headers, "if-modified-since");
    remove_header(headers, "if-match");
    remove_header(headers, "if-none-match");
    remove_header(headers, "if-range");
    remove_header(headers, "if-unmodified-since");
}

/// Marks a response as never to be cached: the headers of conditional
/// requests go, `Expires` names a time long past, and `Cache-Control` and
/// `Pragma` forbid caching.
///
/// The call succeeds on every response whose headers have room for three
/// more names, which is so for every response of fewer than some six
/// thousand headers. Where the header map refuses a header the result is an
/// error; the headers of conditional requests are gone then too, and no
/// header but the three named is touched.
pub fn never_cache_headers(headers: &mut HeaderMap<HeaderValue>) -> (done: Result<
    (),
    CacheControlError,
>)
    ensures
        match done {
            Ok(_) => header_fields(*final(headers)) == never_cache_fields(
                header_fields(*old(headers)),
            ),
            Err(error) => error == CacheControlError::HeaderRefused && stripped_apart_from_policy(
                header_fields(*old(headers)),
                header_fields(*final(headers)),
            ),
        },
        has_room(header_fields(*old(headers)), 3) ==> done is Ok,
{
    proof {
        lemma_header_names();
        lemma_policy_values();
        if has_room(header_fields(*old(headers)), 3) {
            lemma_room_without_conditional_headers(header_fields(*old(headers)), 3);
        }
    }
    remove_etag_headers(headers);
    let ghost stripped = header_fields(*headers);
    if !set_header(headers, "expires", "Thu, 01 Jan 1970 00:00:00 GMT") {
        return Err(CacheControlError::HeaderRefused);
    }
    let ghost first = header_fields(*headers);
    proof {
        if has_room(stripped, 3) {
            lemma_room_after_insert(
                stripped,
                "expires"@,
                seq![encode_utf8("Thu, 01 Jan 1970 00:00:00 GMT"@)],
                2,
            );
        }
    }
    if !set_header(
        headers,
        "cache-control",
        "no-cache, no-store, must-revalidate, private, max-age=0",
    ) {
        assert(first.remove("expires"@) =~= stripped.remove("expires"@));
        return Err(CacheControlError::HeaderRefused);
    }
    let ghost second = header_fields(*headers);
    proof {
        if has_room(first, 2) {
            lemma_room_after_insert(
                first,
                "cache-control"@,
                seq![encode_utf8("no-cache, no-store, must-revalidate, private, max-age=0"@)],
                1,
            );
        }
    }
    if !set_header(headers, "pragma", "no-cache") {
        assert(second.remove("expires"@).remove("cache-control"@) =~= stripped.remove(
            "expires"@,
        ).remove("cache-control"@));
        return Err(CacheControlError::HeaderRefused);
    }
    Ok(())
}

/// Marks a response as good for a year from `now`, the seconds since the
/// start of 1970: the headers of conditional requests go, `Expires` names
/// the time 365 days after `now`, and `Cache-Control` allows every cache to
/// keep the response.
///
/// The result is `ExpiresOutOfRange` exactly where the time a year on lies
/// outside the years 0 to 9999 and so has no text; the headers are
/// untouched then. Otherwise the call succeeds on every response whose
/// headers have room for two more names.
pub fn forever_cache_headers(headers: &mut HeaderMap<HeaderValue>, now: i64) -> (done: Result<
    (),
    CacheControlError,
>)
    ensures
        match done {
            Ok(_) => header_fields(*final(headers)) == forever_cache_fields(
                header_fields(*old(headers)),
                now as int,
            ),
            Err(CacheControlError::ExpiresOutOfRange) => header_fields(*final(headers))
                == header_fields(*old(headers)),
            Err(CacheControlError::HeaderRefused) => stripped_apart_from_policy(
                header_fields(*old(headers)),
                header_fields(*final(headers)),
            ),
        },
        done == Err::<(), CacheControlError>(CacheControlError::ExpiresOutOfRange)
            <==> !has_rfc2822_text(now + ONE_YEAR),
        has_room(header_fields(*old(headers)), 2) && has_rfc2822_text(now + ONE_YEAR)
            ==> done is Ok,
{
    proof {
        lemma_header_names();
        lemma_policy_values();
        if has_room(header_fields(*old(headers)), 2) {
            lemma_room_without_conditional_headers(header_fields(*old(headers)), 2);
        }
    }
    let expires = match one_year_after(now) {
        Some(later) => match rfc2822(later) {
            Some(text) => text,
            None => {
                return Err(CacheControlError::ExpiresOutOfRange);
            },
        },
        None => {
            return Err(CacheControlError::ExpiresOutOfRange);
        },
    };
    assert(is_header_value(expires@)) by {
        assert(is_printable_ascii(expires@));
    }
    remove_etag_headers(headers);
    let ghost stripped = header_fields(*headers);
    if !set_header(headers, "expires", expires.as_str()) {
        return Err(CacheControlError::HeaderRefused);
    }
    let ghost first = header_fields(*headers);
    proof {
        if has_room(stripped, 2) {
            lemma_room_after_insert(stripped, "expires"@, seq![encode_utf8(expires@)], 1);
        }
    }
    if !set_header(
        headers,
        "cache-control",
        "public, max-age=31536000, must-revalidate, immutable",
    ) {
        assert(first.remove("expires"@) =~= stripped.remove("expires"@));
        assert(first.remove("expires"@).remove("cache-control"@).remove("pragma"@)
            =~= stripped.remove("expires"@).remove("cache-control"@).remove("pragma"@));
        return Err(CacheControlError::HeaderRefused);
    }
    Ok(())
}

} // verus!
