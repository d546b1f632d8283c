//! Content fingerprints: the MD5 digest of a file's bytes, written as
//! thirty-two lowercase hexadecimal digits.

use vstd::prelude::*;
use vstd::string::StrSliceExecFns;
use vstd::string::StringExecFns;

verus! {

/// The digest that MD5 (RFC 1321) gives for `data`.
pub uninterp spec fn md5_of(data: Seq<u8>) -> Seq<u8>;

/// The sixteen bytes of the MD5 digest of `data`.
pub open spec fn digest_of(data: Seq<u8>) -> Seq<u8> {
    Seq::new(16, |i: int| md5_of(data)[i])
}

/// The lowercase hexadecimal digit that stands for a value below sixteen.
pub open spec fn hex_digit(nibble: int) -> char {
    if nibble < 10 {
        (nibble + 48) as char
    } else {
        (nibble + 87) as char
    }
}

/// Whether `c` is one of `0`..`9`, `a`..`f`.
pub open spec fn is_hex_digit(c: char) -> bool {
    ('0' <= c && c <= '9') || ('a' <= c && c <= 'f')
}

/// The bytes written out in lowercase hexadecimal, two digits each, the
/// high half of a byte first.
pub open spec fn hex_of(bytes: Seq<u8>) -> Seq<char> {
    Seq::new(
        2 * bytes.len(),
        |i: int|
            if i % 2 == 0 {
                hex_digit(bytes[i / 2] as int / 16)
            } else {
                hex_digit(bytes[i / 2] as int % 16)
            },
    )
}

/// The fingerprint of a file that holds `data`.
pub open spec fn fingerprint_of(data: Seq<u8>) -> Seq<char> {
    hex_of(digest_of(data))
}

/// Whether `text` has the shape of a fingerprint: thirty-two lowercase
/// hexadecimal digits.
pub open spec fn is_fingerprint(text: Seq<char>) -> bool {
    text.len() == 32 && forall|i: int| 0 <= i < text.len() ==> is_hex_digit(#[trigger] text[i])
}

/// Hexadecimal text is twice as long as the bytes it stands for and holds
/// nothing but hexadecimal digits.
pub proof fn lemma_hex_of_shape(bytes: Seq<u8>)
    ensures
        hex_of(bytes).len() == 2 * bytes.len(),
        forall|i: int| 0 <= i < hex_of(bytes).len() ==> is_hex_digit(#[trigger] hex_of(bytes)[i]),
{
    assert forall|i: int| 0 <= i < hex_of(bytes).len() implies is_hex_digit(
        #[trigger] hex_of(bytes)[i],
    ) by {
        let b = bytes[i / 2] as int;
        lemma_hex_digit_is_digit(b / 16);
        lemma_hex_digit_is_digit(b % 16);
    }
}

/// Every value below sixteen has a hexadecimal digit.
pub proof fn lemma_hex_digit_is_digit(nibble: int)
    requires
        0 <= nibble < 16,
    ensures
        is_hex_digit(hex_digit(nibble)),
{
}

/// Whatever a file holds, its fingerprint is thirty-two hexadecimal digits.
pub proof fn lemma_fingerprint_shape(data: Seq<u8>)
    ensures
        is_fingerprint(fingerprint_of(data)),
{
    lemma_hex_of_shape(digest_of(data));
}

/// Equal contents have equal fingerprints.
pub proof fn lemma_fingerprint_deterministic(first: Seq<u8>, second: Seq<u8>)
    requires
        first == second,
    ensures
        fingerprint_of(first) == fingerprint_of(second),
{
}

/// Calls `md5::compute` and hands back the digest's sixteen bytes. The
/// contract names them `md5_of` of the input: the digest depends on the
/// bytes alone.
#[verifier::external_body]
fn md5_digest(data: &[u8]) -> (digest: [u8; 16])
    ensures
        digest@ == md5_of(data@),
{
    md5::compute(data).0
}

/// One hexadecimal digit as text.
fn hex_digit_text(nibble: u8) -> (digit: &'static str)
    requires
        nibble < 16,
    ensures
        digit@ == seq![hex_digit(nibble as int)],
{
    let digits = "0123456789abcdef";
    proof {
        reveal_strlit("0123456789abcdef");
    }
    let digit = digits.substring_char(nibble as usize, nibble as usize + 1);
    assert(digit@ =~= seq![hex_digit(nibble as int)]);
    digit
}

/// Writes bytes in lowercase hexadecimal.
pub fn to_hex(bytes: &[u8]) -> (text: String)
    ensures
        text@ == hex_of(bytes@),
{
    let mut text = String::new();
    let mut i: usize = 0;
    while i < bytes.len()
        invariant
            i <= bytes.len(),
            text@ == hex_of(bytes@.take(i as int)),
        decreases bytes.len() - i,
    {
        let byte = bytes[i];
        text.append(hex_digit_text(byte / 16));
        text.append(hex_digit_text(byte % 16));
        i += 1;
        assert(text@ =~= hex_of(bytes@.take(i as int)));
    }
    assert(bytes@.take(i as int) == bytes@);
    text
}

/// The fingerprint of a file's contents: its MD5 digest in lowercase
/// hexadecimal. The same bytes always give the same fingerprint, and every
/// fingerprint is thirty-two hexadecimal digits long.
pub fn fingerprint(data: &[u8]) -> (text: String)
    ensures
        text@ == fingerprint_of(data@),
        is_fingerprint(text@),
{
    let digest = md5_digest(data);
    proof {
        lemma_fingerprint_shape(data@);
        assert(digest@ =~= digest_of(data@));
    }
    to_hex(digest.as_slice())
}

} // verus!
