//! The address of the client behind the proxies that stand before the site.

use crate::cache_control::{ascii_text, header_fields, header_text, is_header_name, is_visible_text};
use crate::text::{chars_of, find_from, first_index_from, lemma_first_index_from};
use http::{HeaderMap, HeaderValue};
use vstd::prelude::*;
use vstd::string::StrSliceExecFns;
use vstd::string::StringExecFns;

verus! {

/// What the header `name` says, where the headers hold it and its first
/// value reads as text.
pub open spec fn header_said(fields: Map<Seq<char>, Seq<Seq<u8>>>, name: Seq<char>) -> Option<
    Seq<char>,
> {
    if fields.contains_key(name) && is_visible_text(fields[name][0]) {
        Some(ascii_text(fields[name][0]))
    } else {
        None
    }
}

/// The first entry of a list whose entries are kept apart by commas: the
/// client itself, in a list of the client and the proxies behind it.
pub open spec fn first_entry_of(list: Seq<char>) -> Seq<char> {
    list.subrange(0, first_index_from(list, ',', 0))
}

/// The address of the client: what the first of these headers that is
/// there and reads as text says, the most trusted first, and the address of
/// the socket where none does.
pub open spec fn true_client_ip_of(
    socket_ip: Seq<char>,
    fields: Map<Seq<char>, Seq<Seq<u8>>>,
) -> Seq<char> {
    if let Some(ip) = header_said(fields, "true-client-ip"@) {
        ip
    } else if let Some(ip) = header_said(fields, "cf-connecting-ip"@) {
        ip
    } else if let Some(list) = header_said(fields, "x-forwarded-for"@) {
        first_entry_of(list)
    } else if let Some(ip) = header_said(fields, "x-real-ip"@) {
        ip
    } else if let Some(ip) = header_said(fields, "forwarded"@) {
        ip
    } else {
        socket_ip
    }
}

/// With none of the five headers the address of the socket is all there is.
pub proof fn lemma_socket_address_is_the_last_resort(
    socket_ip: Seq<char>,
    fields: Map<Seq<char>, Seq<Seq<u8>>>,
)
    requires
        !fields.contains_key("true-client-ip"@),
        !fields.contains_key("cf-connecting-ip"@),
        !fields.contains_key("x-forwarded-for"@),
        !fields.contains_key("x-real-ip"@),
        !fields.contains_key("forwarded"@),
    ensures
        true_client_ip_of(socket_ip, fields) == socket_ip,
{
}

/// The names of the headers that may carry the address of the client are
/// header names in lower case.
pub proof fn lemma_client_ip_header_names()
    ensures
        is_header_name("true-client-ip"@),
        is_header_name("cf-connecting-ip"@),
        is_header_name("x-forwarded-for"@),
        is_header_name("x-real-ip"@),
        is_header_name("forwarded"@),
{
    reveal_strlit("true-client-ip");
    reveal_strlit("cf-connecting-ip");
    reveal_strlit("x-forwarded-for");
    reveal_strlit("x-real-ip");
    reveal_strlit("forwarded");
}

/// What a header says, where it is there and reads as text.
fn said(headers: &HeaderMap<HeaderValue>, name: &str) -> (text: Option<String>)
    requires
        is_header_name(name@),
    ensures
        match text {
            Some(read) => header_said(header_fields(*headers), name@) == Some(read@),
            None => header_said(header_fields(*headers), name@) is None,
        },
{
    match header_text(headers, name) {
        Some(Some(read)) => Some(read),
        _ => None,
    }
}

/// The first entry of a list whose entries are kept apart by commas.
pub fn first_entry(list: &str) -> (entry: String)
    ensures
        entry@ == first_entry_of(list@),
{
    let chars = chars_of(list);
    let cut = find_from(&chars, ',', 0);
    String::from_str(list.substring_char(0, cut))
}

/// Finds the address of the client itself, not that of a proxy.
///
/// The headers are asked in this order: `True-Client-IP`,
/// `CF-Connecting-IP`, `X-Forwarded-For`, `X-Real-IP`, `Forwarded`. A header
/// whose value does not read as text counts as absent. Of
/// `X-Forwarded-For`, which lists the client and then the proxies, the first
/// entry is taken. Where no header answers, the address of the socket is
/// returned, which is that of the last proxy.
pub fn resolve_true_client_ip_address(socket_ip: &str, header_map: &HeaderMap<HeaderValue>) -> (ip:
    String)
    ensures
        ip@ == true_client_ip_of(socket_ip@, header_fields(*header_map)),
{
    proof {
        lemma_client_ip_header_names();
    }
    if let Some(ip) = said(header_map, "true-client-ip") {
        return ip;
    }
    if let Some(ip) = said(header_map, "cf-connecting-ip") {
        return ip;
    }
    if let Some(list) = said(header_map, "x-forwarded-for") {
        return first_entry(list.as_str());
    }
    if let Some(ip) = said(header_map, "x-real-ip") {
        return ip;
    }
    if let Some(ip) = said(header_map, "forwarded") {
        return ip;
    }
    socket_ip.to_owned()
}

} // verus!
