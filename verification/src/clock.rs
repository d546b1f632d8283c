//! The calendar: the text of a point in time as HTTP headers carry it. The
//! clock is read by the caller.

use vstd::prelude::*;

verus! {

/// The first second that RFC 2822 can name: the start of the year 0.
pub const RFC2822_FIRST: i64 = -62_167_219_200;

/// The last second that RFC 2822 can name: the end of the year 9999.
pub const RFC2822_LAST: i64 = 253_402_300_799;

/// The seconds of a year of 365 days.
pub const ONE_YEAR: i64 = 31_536_000;

/// Whether `text` is made of printable ASCII characters only.
pub open spec fn is_printable_ascii(text: Seq<char>) -> bool {
    forall|i: int| 0 <= i < text.len() ==> ' ' <= #[trigger] text[i] && text[i] <= '~'
}

/// The text that chrono's `DateTime::<Utc>::to_rfc2822` gives for the point
/// in time `seconds` after the start of 1970, such as
/// `Thu, 1 Jan 1970 00:00:00 +0000`.
pub uninterp spec fn rfc2822_of(seconds: int) -> Seq<char>;

/// Calls `chrono::DateTime::from_timestamp` with no nanoseconds and, on
/// what it returns, `DateTime::to_rfc2822`. Within the years 0 to 9999
/// `from_timestamp` returns a time (chrono's dates reach to the year 262142
/// either way) and `to_rfc2822` does not panic. The text is only named;
/// it is made of names of days and months, digits, spaces, `,`, `:` and
/// `+`, all of them printable ASCII.
#[verifier::external_body]
pub(crate) fn format_rfc2822(seconds: i64) -> (text: Option<String>)
    requires
        RFC2822_FIRST <= seconds <= RFC2822_LAST,
    ensures
        text is Some && text.unwrap()@ == rfc2822_of(seconds as int),
        text is Some && is_printable_ascii(text.unwrap()@),
{
    match chrono::DateTime::<chrono::Utc>::from_timestamp(seconds, 0) {
        Some(time) => Some(time.to_rfc2822()),
        None => None,
    }
}

/// Whether RFC 2822 can name the point in time `seconds`.
pub open spec fn has_rfc2822_text(seconds: int) -> bool {
    RFC2822_FIRST <= seconds <= RFC2822_LAST
}

/// The point in time one year of 365 days after `now`, where RFC 2822 can
/// name it.
pub fn one_year_after(now: i64) -> (later: Option<i64>)
    ensures
        later is Some <==> has_rfc2822_text(now + ONE_YEAR),
        later matches Some(seconds) ==> seconds == now + ONE_YEAR,
{
    if now < RFC2822_FIRST - ONE_YEAR || now > RFC2822_LAST - ONE_YEAR {
        None
    } else {
        Some(now + ONE_YEAR)
    }
}

/// The point in time `seconds` as RFC 2822 writes it; `None` where it
/// cannot, which is outside the years 0 to 9999 and nowhere else.
pub fn rfc2822(seconds: i64) -> (text: Option<String>)
    ensures
        match text {
            Some(written) => has_rfc2822_text(seconds as int) && written@ == rfc2822_of(
                seconds as int,
            ) && is_printable_ascii(written@),
            None => !has_rfc2822_text(seconds as int),
        },
{
    if seconds < RFC2822_FIRST || seconds > RFC2822_LAST {
        None
    } else {
        format_rfc2822(seconds)
    }
}

} // verus!
