//! Version strings: semantic-version precedence where both sides are semantic
//! versions, raw lexical order otherwise, and version-range matching.

use crate::text::{compare_text, lemma_lex_order_reflexive, text_order, Order};
use std::cmp::Ordering;
use vstd::prelude::*;

verus! {

/// Whether `text` is a semantic version: what `semver::Version::parse`
/// accepts.
pub uninterp spec fn is_semver(text: Seq<char>) -> bool;

/// The precedence of the semantic version written `a` against the one
/// written `b`: what `Ord::cmp` of `semver::Version` gives for the two parsed
/// values. Meaningful only where both texts are semantic versions.
pub uninterp spec fn semver_order(a: Seq<char>, b: Seq<char>) -> Order;

/// Whether `range` is a version-range expression: what
/// `semver::VersionReq::parse` accepts.
pub uninterp spec fn is_semver_range(range: Seq<char>) -> bool;

/// Whether the range written `range` admits the version written `version`:
/// what `semver::VersionReq::matches` gives for the two parsed values.
/// Meaningful only where both texts parse.
pub uninterp spec fn semver_range_admits(range: Seq<char>, version: Seq<char>) -> bool;

/// Calls `semver::Version::parse` and reports whether it accepted the text.
#[verifier::external_body]
pub(crate) fn parses_as_version(text: &str) -> (b: bool)
    ensures
        b == is_semver(text@),
{
    semver::Version::parse(text).is_ok()
}

/// Parses both texts with `semver::Version::parse` and compares the results
/// with `Ord::cmp` of `semver::Version`. Gives `None` exactly where one of the
/// texts is not a semantic version. The same text on both sides parses to the
/// same value, which compares equal to itself.
#[verifier::external_body]
fn semver_compare(a: &str, b: &str) -> (r: Option<Order>)
    ensures
        r is Some <==> (is_semver(a@) && is_semver(b@)),
        r is Some ==> r->0 == (if a@ == b@ {
            Order::Equal
        } else {
            semver_order(a@, b@)
        }),
{
    match (semver::Version::parse(a), semver::Version::parse(b)) {
        (Ok(x), Ok(y)) => Some(
            match x.cmp(&y) {
                Ordering::Less => Order::Less,
                Ordering::Equal => Order::Equal,
                Ordering::Greater => Order::Greater,
            },
        ),
        _ => None,
    }
}

/// Parses `range` with `semver::VersionReq::parse` and `version` with
/// `semver::Version::parse`, and asks `semver::VersionReq::matches`. Gives
/// `None` exactly where one of the two does not parse.
#[verifier::external_body]
fn semver_match(range: &str, version: &str) -> (r: Option<bool>)
    ensures
        r is Some <==> (is_semver_range(range@) && is_semver(version@)),
        r is Some ==> r->0 == semver_range_admits(range@, version@),
{
    match (semver::VersionReq::parse(range), semver::Version::parse(version)) {
        (Ok(req), Ok(v)) => Some(req.matches(&v)),
        _ => None,
    }
}

/// The order of two version strings. Two semantic versions are ordered by
/// semantic-version precedence. Where either string is not a semantic version
/// the raw lexical order of the two strings decides instead: a degraded mode
/// that still tells unequal strings apart.
pub open spec fn version_order(a: Seq<char>, b: Seq<char>) -> Order {
    if is_semver(a) && is_semver(b) {
        if a == b {
            Order::Equal
        } else {
            semver_order(a, b)
        }
    } else {
        text_order(a, b)
    }
}

/// Whether the host version `host` satisfies the range expression `range`.
/// A range or a host version that does not parse satisfies nothing.
pub open spec fn range_satisfied(range: Seq<char>, host: Seq<char>) -> bool {
    is_semver_range(range) && is_semver(host) && semver_range_admits(range, host)
}

/// Compares two version strings.
pub fn compare_versions(a: &str, b: &str) -> (o: Order)
    ensures
        o == version_order(a@, b@),
{
    match semver_compare(a, b) {
        Some(o) => o,
        None => compare_text(a, b),
    }
}

/// Tests whether the host version satisfies the range expression.
pub fn satisfies_range(range: &str, host: &str) -> (b: bool)
    ensures
        b == range_satisfied(range@, host@),
{
    match semver_match(range, host) {
        Some(m) => m,
        None => false,
    }
}

/// Every version string, semantic or not, is equal to itself in version
/// order.
pub proof fn lemma_version_order_reflexive(a: Seq<char>)
    ensures
        version_order(a, a) == Order::Equal,
{
    lemma_lex_order_reflexive(vstd::utf8::encode_utf8(a), 0);
}

} // verus!
