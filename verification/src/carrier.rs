//! The trusted boundary: the string-keyed carrier of request metadata
//! (http's header map) and the source of random identities (rand). Every
//! item here is believed, not proved; each doc comment names the outside
//! function it relies on.

use vstd::prelude::*;

verus! {

#[verifier::external_type_specification]
#[verifier::external_body]
#[verifier::reject_recursive_types(T)]
pub struct ExHeaderMap<T>(http::HeaderMap<T>);

#[verifier::external_type_specification]
#[verifier::external_body]
pub struct ExHeaderValue(http::HeaderValue);

/// The bytes a carrier holds under the key "traceparent", if any: the one
/// entry this library reads and writes.
pub uninterp spec fn traceparent_of(headers: http::HeaderMap) -> Option<Seq<u8>>;

/// The bytes a header value holds.
pub uninterp spec fn value_bytes(value: http::HeaderValue) -> Seq<u8>;

/// How many values a carrier holds in all, over every key; a key carrying
/// several values counts each of them.
pub uninterp spec fn entry_count(headers: http::HeaderMap) -> nat;

/// The values a carrier holds under every key other than "traceparent",
/// keyed by header name: the part of the carrier this library never touches.
pub uninterp spec fn other_entries(headers: http::HeaderMap) -> Map<Seq<u8>, Seq<Seq<u8>>>;

/// A byte http accepts inside a header value.
pub open spec fn valid_header_byte(b: u8) -> bool {
    b == 9 || (32 <= b && b != 127)
}

/// Relies on http::HeaderMap::get: the value stored under "traceparent",
/// or `None` when the carrier has no such entry.
#[verifier::external_body]
pub(crate) fn get_traceparent(headers: &http::HeaderMap) -> (r: Option<&http::HeaderValue>)
    ensures
        r is Some <==> traceparent_of(*headers) is Some,
        r matches Some(v) ==> traceparent_of(*headers) == Some(value_bytes(*v)),
{
    headers.get("traceparent")
}

/// Relies on http::HeaderValue::as_bytes: the bytes the value holds.
#[verifier::external_body]
pub(crate) fn header_value_bytes(value: &http::HeaderValue) -> (r: Vec<u8>)
    ensures
        r@ == value_bytes(*value),
{
    value.as_bytes().to_vec()
}

/// Relies on http::HeaderValue::from_bytes: it accepts exactly the byte
/// strings made of bytes http allows in a header value, and stores the
/// accepted ones unchanged.
#[verifier::external_body]
pub(crate) fn header_value_from_bytes(bytes: &Vec<u8>) -> (r: Option<http::HeaderValue>)
    ensures
        r is Some <==> (forall|i: int| 0 <= i < bytes@.len() ==> valid_header_byte(bytes@[i])),
        r matches Some(v) ==> value_bytes(v) == bytes@,
{
    http::HeaderValue::from_bytes(bytes.as_slice()).ok()
}

/// Relies on http::HeaderMap::try_insert under the key "traceparent": on
/// success the entry holds the given value, replacing any prior one; on
/// failure the entries are left as they were. Failure can only come of
/// growing the map's index table past its fixed ceiling of 32768 slots,
/// which cannot happen while the map holds fewer than 6554 values, so below
/// the stated bound the insert is owed to succeed. Writing under one key
/// leaves every other key's values as they were.
#[verifier::external_body]
pub(crate) fn insert_traceparent(headers: &mut http::HeaderMap, value: http::HeaderValue) -> (ok:
    bool)
    ensures
        entry_count(*old(headers)) < 4096 ==> ok,
        ok ==> traceparent_of(*final(headers)) == Some(value_bytes(value)),
        !ok ==> traceparent_of(*final(headers)) == traceparent_of(*old(headers)),
        other_entries(*final(headers)) == other_entries(*old(headers)),
{
    headers.try_insert("traceparent", value).is_ok()
}

/// Relies on rand::random: a fresh draw from the thread-local generator;
/// nothing can be promised of the value.
pub assume_specification<T>[ rand::random::<T> ]() -> (r: T)
    where
        rand::distr::StandardUniform: rand::distr::Distribution<T>,
;

} // verus!
