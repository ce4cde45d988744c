//! The calls this library makes into other crates and into parts of std that have no
//! specification of their own. Every item here is trusted: its contract is believed,
//! not proved, and says what the called code does as its source shows it.
use vstd::prelude::*;
use dashmap::{DashMap, DashSet};
use percent_encoding::PercentDecode;
use reqwest::Url;
use stream_cancel::Trigger;
use vstd::utf8::{decode_utf8, valid_utf8};
use vstd::string::StringSliceAdditionalSpecFns;

verus! {

// ---------------------------------------------------------------------------
// Outside types
// ---------------------------------------------------------------------------

/// A parsed URL (`url::Url`, re-exported by reqwest); carried through unopened.
#[verifier::external_type_specification]
#[verifier::external_body]
pub struct ExUrl(Url);

/// The lazy percent-decoder of the `percent-encoding` crate.
#[verifier::external_type_specification]
#[verifier::external_body]
pub struct ExPercentDecode<'a>(PercentDecode<'a>);

/// The handle that stops a cancellable download stream when it is dropped.
#[verifier::external_type_specification]
#[verifier::external_body]
pub struct ExTrigger(Trigger);

/// dashmap's concurrent map.
#[verifier::external_type_specification]
#[verifier::external_body]
#[verifier::reject_recursive_types(K)]
#[verifier::reject_recursive_types(V)]
#[verifier::reject_recursive_types(S)]
pub struct ExDashMap<K, V, S>(DashMap<K, V, S>);

/// dashmap's concurrent set.
#[verifier::external_type_specification]
#[verifier::external_body]
#[verifier::reject_recursive_types(K)]
#[verifier::reject_recursive_types(S)]
pub struct ExDashSet<K, S>(DashSet<K, S>);

// ---------------------------------------------------------------------------
// URL parsing
// ---------------------------------------------------------------------------

/// What `Url::parse` gives for a text: the URL, or the text of its parse error.
pub uninterp spec fn url_parse_result(text: Seq<char>) -> Result<Url, Seq<char>>;

/// `Url::parse(text)`, with the error turned into its message. The result is
/// `url_parse_result` of the text; what that is on a given text (the WHATWG URL
/// parser) is not written out here.
#[verifier::external_body]
pub fn parse_url(text: &str) -> (res: Result<Url, String>)
    ensures
        match res {
            Ok(u) => url_parse_result(text@) == Ok::<Url, Seq<char>>(u),
            Err(e) => url_parse_result(text@) == Err::<Url, Seq<char>>(e@),
        },
{
    Url::parse(text).map_err(|e| e.to_string())
}

// ---------------------------------------------------------------------------
// Percent-decoding
// ---------------------------------------------------------------------------

/// The value of an ASCII hexadecimal digit (`char::to_digit(16)` on the byte).
pub open spec fn hex_digit_value(b: u8) -> Option<u8> {
    if 0x30 <= b <= 0x39 {
        Some((b - 0x30) as u8)
    } else if 0x61 <= b <= 0x66 {
        Some((b - 0x61 + 10) as u8)
    } else if 0x41 <= b <= 0x46 {
        Some((b - 0x41 + 10) as u8)
    } else {
        None
    }
}

/// Percent-decoding of bytes: every `%` followed by two hexadecimal digits becomes the
/// byte they spell; every other byte, a lone `%` included, stays as it is.
pub open spec fn percent_decode_bytes(b: Seq<u8>) -> Seq<u8>
    decreases b.len(),
{
    if b.len() == 0 {
        Seq::empty()
    } else if b[0] == 0x25 && b.len() >= 3 && hex_digit_value(b[1]) is Some && hex_digit_value(
        b[2],
    ) is Some {
        seq![(hex_digit_value(b[1]).unwrap() * 16 + hex_digit_value(b[2]).unwrap()) as u8]
            + percent_decode_bytes(b.skip(3))
    } else {
        seq![b[0]] + percent_decode_bytes(b.skip(1))
    }
}

/// The bytes that a percent-decoder yields.
pub uninterp spec fn percent_decoded(d: PercentDecode) -> Seq<u8>;

/// `percent_encoding::percent_decode_str`: a decoder over the UTF-8 bytes of `s` that
/// yields them percent-decoded.
#[verifier::external_body]
pub fn percent_decode_str(s: &str) -> (d: PercentDecode<'_>)
    ensures
        percent_decoded(d) == percent_decode_bytes(s.spec_bytes()),
{
    percent_encoding::percent_decode_str(s)
}

/// `PercentDecode::decode_utf8`, its error dropped: the decoded bytes as a string when
/// they are valid UTF-8, else `None`.
#[verifier::external_body]
pub fn decode_utf8_ok(d: PercentDecode<'_>) -> (res: Option<String>)
    ensures
        match res {
            Some(t) => valid_utf8(percent_decoded(d)) && t@ == decode_utf8(percent_decoded(d)),
            None => !valid_utf8(percent_decoded(d)),
        },
{
    d.decode_utf8().ok().map(|s| s.into_owned())
}

// ---------------------------------------------------------------------------
// MIME types
// ---------------------------------------------------------------------------

/// What `mime_guess::get_mime_extensions_str` gives for a MIME type: its known file
/// extensions, or `None` when the type is unknown.
pub uninterp spec fn mime_extensions(mime: Seq<char>) -> Option<Seq<Seq<char>>>;

/// `mime_guess::get_mime_extensions_str(mime)`, each extension as an owned string. The
/// result is `mime_extensions` of the text; the crate's table is not written out here.
#[verifier::external_body]
pub fn get_mime_extensions_str(mime: &str) -> (res: Option<Vec<String>>)
    ensures
        match res {
            Some(v) => mime_extensions(mime@) == Some(v.deep_view()),
            None => mime_extensions(mime@) is None,
        },
{
    mime_guess::get_mime_extensions_str(mime).map(|exts| exts.iter().map(|e| e.to_string()).collect())
}

// ---------------------------------------------------------------------------
// Lower case
// ---------------------------------------------------------------------------

/// What `str::to_lowercase` gives for a text (Unicode lower-case mapping).
pub uninterp spec fn lowercase(s: Seq<char>) -> Seq<char>;

/// `str::to_lowercase`. The result is `lowercase` of the text; the Unicode tables behind
/// it are not written out here.
#[verifier::external_body]
pub fn to_lowercase(s: &str) -> (res: String)
    ensures
        res@ == lowercase(s@),
{
    s.to_lowercase()
}

// ---------------------------------------------------------------------------
// Integer parsing
// ---------------------------------------------------------------------------

/// Whether every character is an ASCII decimal digit.
pub open spec fn all_decimal_digits(s: Seq<char>) -> bool {
    forall|j: int| 0 <= j < s.len() ==> '0' <= #[trigger] s[j] <= '9'
}

/// The number that decimal digits spell.
pub open spec fn decimal_value(s: Seq<char>) -> int
    decreases s.len(),
{
    if s.len() == 0 {
        0
    } else {
        decimal_value(s.drop_last()) * 10 + (s.last() as int - '0' as int)
    }
}

/// What `str::parse::<i32>` accepts: an optional `+` or `-`, then one or more decimal
/// digits, nothing else, whose value fits an `i32`.
pub open spec fn spec_parse_i32(s: Seq<char>) -> Option<i32> {
    let negative = s.len() > 0 && s[0] == '-';
    let digits = if s.len() > 0 && (s[0] == '-' || s[0] == '+') {
        s.skip(1)
    } else {
        s
    };
    let value = if negative {
        -decimal_value(digits)
    } else {
        decimal_value(digits)
    };
    if digits.len() > 0 && all_decimal_digits(digits) && i32::MIN <= value <= i32::MAX {
        Some(value as i32)
    } else {
        None
    }
}

/// `str::parse::<i32>`, its error dropped: the documented grammar of `i32::from_str`
/// (a sign, then digits, within range), stated in `spec_parse_i32`.
#[verifier::external_body]
pub fn parse_i32(s: &str) -> (r: Option<i32>)
    ensures
        r == spec_parse_i32(s@),
{
    s.parse::<i32>().ok()
}

// ---------------------------------------------------------------------------
// Concurrent collections of dashmap
// ---------------------------------------------------------------------------

/// Chat id to user id.
pub type ChatUsers = DashMap<i64, i64>;

/// Chat id to the trigger that cancels the chat's download.
pub type ChatTriggers = DashMap<i64, Trigger>;

/// The chat ids a `DashSet<i64>` holds.
pub uninterp spec fn set_contents(s: DashSet<i64>) -> Set<i64>;

/// The entries a `DashMap<i64, i64>` holds.
pub uninterp spec fn map_contents(m: ChatUsers) -> Map<i64, i64>;

/// The keys of a `ChatTriggers`.
pub uninterp spec fn trigger_keys(m: ChatTriggers) -> Set<i64>;

/// `DashSet::new`: an empty set.
#[verifier::external_body]
pub fn set_new() -> (s: DashSet<i64>)
    ensures
        set_contents(s) == Set::<i64>::empty(),
{
    DashSet::new()
}

/// `DashSet::insert`: adds `key`; `true` when it was not there before.
#[verifier::external_body]
pub fn set_insert(s: &mut DashSet<i64>, key: i64) -> (added: bool)
    ensures
        added == !set_contents(*old(s)).contains(key),
        set_contents(*final(s)) == set_contents(*old(s)).insert(key),
{
    s.insert(key)
}

/// `DashSet::remove`: takes `key` out; the key when it was there.
#[verifier::external_body]
pub fn set_remove(s: &mut DashSet<i64>, key: i64) -> (removed: Option<i64>)
    ensures
        removed == (if set_contents(*old(s)).contains(key) {
            Some(key)
        } else {
            None
        }),
        set_contents(*final(s)) == set_contents(*old(s)).remove(key),
{
    s.remove(&key)
}

/// `DashMap::new` for chat-to-user entries: an empty map.
#[verifier::external_body]
pub fn map_new() -> (m: ChatUsers)
    ensures
        map_contents(m).dom() == Set::<i64>::empty(),
{
    DashMap::new()
}

/// `DashMap::insert`: sets `key` to `value`; the value it replaced, if any.
#[verifier::external_body]
pub fn map_insert(m: &mut ChatUsers, key: i64, value: i64) -> (previous: Option<i64>)
    ensures
        previous == (if map_contents(*old(m)).dom().contains(key) {
            Some(map_contents(*old(m))[key])
        } else {
            None
        }),
        map_contents(*final(m)) == map_contents(*old(m)).insert(key, value),
{
    m.insert(key, value)
}

/// `DashMap::remove`: takes `key` out; the entry when it was there.
#[verifier::external_body]
pub fn map_remove(m: &mut ChatUsers, key: i64) -> (removed: Option<(i64, i64)>)
    ensures
        removed == (if map_contents(*old(m)).dom().contains(key) {
            Some((key, map_contents(*old(m))[key]))
        } else {
            None
        }),
        map_contents(*final(m)) == map_contents(*old(m)).remove(key),
{
    m.remove(&key)
}

/// `DashMap::get`, the value copied out of the guard it returns.
#[verifier::external_body]
pub fn map_get(m: &ChatUsers, key: i64) -> (value: Option<i64>)
    ensures
        value == (if map_contents(*m).dom().contains(key) {
            Some(map_contents(*m)[key])
        } else {
            None
        }),
{
    m.get(&key).map(|entry| *entry.value())
}

/// `DashMap::new` for cancel triggers: an empty map.
#[verifier::external_body]
pub fn trigger_map_new() -> (m: ChatTriggers)
    ensures
        trigger_keys(m) == Set::<i64>::empty(),
{
    DashMap::new()
}

/// `DashMap::insert` of a trigger; a trigger it replaces is dropped, which stops its stream.
#[verifier::external_body]
pub fn trigger_map_insert(m: &mut ChatTriggers, key: i64, trigger: Trigger)
    ensures
        trigger_keys(*final(m)) == trigger_keys(*old(m)).insert(key),
{
    m.insert(key, trigger);
}

/// `DashMap::remove` of a trigger: the trigger when `key` had one.
#[verifier::external_body]
pub fn trigger_map_remove(m: &mut ChatTriggers, key: i64) -> (removed: Option<Trigger>)
    ensures
        removed is Some == trigger_keys(*old(m)).contains(key),
        trigger_keys(*final(m)) == trigger_keys(*old(m)).remove(key),
{
    m.remove(&key).map(|(_, trigger)| trigger)
}

} // verus!
