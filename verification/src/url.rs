//! The address of a collection's endpoint.

use vstd::prelude::*;
use crate::text::{decimal_digits, decimal_value, lemma_decimal_round_trip, push_char, push_decimal};

verus! {

/// The fixed part of the route, up to and including the separator that
/// precedes the collection's number.
pub open spec fn route_prefix() -> Seq<char> {
    "apps/analytics/api/1.0/adddata/"@
}

/// The route under the base address that accepts data for `collection`.
pub open spec fn route(collection: nat) -> Seq<char> {
    route_prefix() + decimal_digits(collection)
}

/// Whether `base` already ends with a path separator.
pub open spec fn ends_with_separator(base: Seq<char>) -> bool {
    base.len() > 0 && base.last() == '/'
}

/// `base`, followed by a path separator unless it ends with one.
pub open spec fn with_separator(base: Seq<char>) -> Seq<char> {
    if ends_with_separator(base) {
        base
    } else {
        base.push('/')
    }
}

/// The endpoint address for `collection` on the instance at `base`.
pub open spec fn endpoint(base: Seq<char>, collection: nat) -> Seq<char> {
    with_separator(base) + route(collection)
}

/// Whether `base` ends with two path separators in a row.
pub open spec fn ends_with_two_separators(base: Seq<char>) -> bool {
    base.len() >= 2 && base[base.len() - 1] == '/' && base[base.len() - 2] == '/'
}

/// Where the route starts in the endpoint address.
pub open spec fn route_start(base: Seq<char>, collection: nat) -> int {
    endpoint(base, collection).len() - route(collection).len()
}

/// With or without a separator at the end of the base, the address is the base
/// joined to the route by one separator: the route closes the address, a
/// separator stands right before it, and what stands before the route is the
/// base itself or the base and that separator.
pub proof fn lemma_route_follows_separator(base: Seq<char>, collection: nat)
    ensures
        route_start(base, collection) >= 1,
        endpoint(base, collection).skip(route_start(base, collection)) == route(collection),
        endpoint(base, collection)[route_start(base, collection) - 1] == '/',
        endpoint(base, collection).take(route_start(base, collection)) == with_separator(base),
        ends_with_separator(base) ==> with_separator(base) == base,
        !ends_with_separator(base) ==> with_separator(base).drop_last() == base,
        route(collection)[0] != '/',
{
    reveal_strlit("apps/analytics/api/1.0/adddata/");
}

/// Unless the base ends with two separators, exactly one separator stands
/// between what precedes it and the route.
pub proof fn lemma_single_separator(base: Seq<char>, collection: nat)
    requires
        !ends_with_two_separators(base),
    ensures
        route_start(base, collection) >= 2 ==> endpoint(base, collection)[route_start(
            base,
            collection,
        ) - 2] != '/',
{
    lemma_route_follows_separator(base, collection);
}

/// The collection's number closes the address as its plain decimal numeral,
/// right after a separator, and reads back as the same number.
pub proof fn lemma_collection_verbatim(base: Seq<char>, collection: nat)
    ensures
        ({
            let url = endpoint(base, collection);
            let digits = decimal_digits(collection);
            &&& url.len() > digits.len()
            &&& url.skip(url.len() - digits.len()) == digits
            &&& url[url.len() - digits.len() - 1] == '/'
            &&& decimal_value(digits) == collection
        }),
{
    reveal_strlit("apps/analytics/api/1.0/adddata/");
    lemma_decimal_round_trip(collection);
}

/// Tells whether `base` ends with a path separator.
pub fn has_trailing_separator(base: &str) -> (r: bool)
    ensures
        r == ends_with_separator(base@),
{
    let mut last: Option<char> = None;
    for c in it: base.chars()
        invariant
            it.seq() == base@,
            it.index() == 0 ==> last is None,
            it.index() > 0 ==> last == Some(base@[it.index() - 1]),
    {
        last = Some(c);
    }
    match last {
        Some(c) => c == '/',
        None => false,
    }
}

/// Builds the endpoint address for `collection` on the instance at `base`.
pub fn endpoint_url(base: &str, collection: u32) -> (url: String)
    ensures
        url@ == endpoint(base@, collection as nat),
{
    let mut url = String::from_str(base);
    if !has_trailing_separator(base) {
        push_char(&mut url, '/');
    }
    url.append("apps/analytics/api/1.0/adddata/");
    push_decimal(&mut url, collection as u64);
    url
}

} // verus!
