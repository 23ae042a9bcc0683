//! Text primitives: the raw lexical order of strings and substring search,
//! both over the UTF-8 bytes of the text.

use vstd::prelude::*;
use vstd::string::*;

verus! {

/// The outcome of comparing two values.
#[derive(Clone, Copy, Debug, PartialEq, Eq, Structural)]
pub enum Order {
    Less,
    Equal,
    Greater,
}

/// Lexicographic order of `a` and `b` from position `i` on, given that they
/// agree before `i`.
pub open spec fn lex_order_from(a: Seq<u8>, b: Seq<u8>, i: int) -> Order
    decreases a.len() - i,
{
    if i >= a.len() {
        if i >= b.len() {
            Order::Equal
        } else {
            Order::Less
        }
    } else if i >= b.len() {
        Order::Greater
    } else if a[i] < b[i] {
        Order::Less
    } else if a[i] > b[i] {
        Order::Greater
    } else {
        lex_order_from(a, b, i + 1)
    }
}

/// Lexicographic order of two byte strings: the first differing byte decides,
/// and a proper prefix is less than the longer string.
pub open spec fn lex_order(a: Seq<u8>, b: Seq<u8>) -> Order {
    lex_order_from(a, b, 0)
}

/// Raw lexical order of two texts, by the bytes of their UTF-8 encoding.
pub open spec fn text_order(a: Seq<char>, b: Seq<char>) -> Order {
    lex_order(vstd::utf8::encode_utf8(a), vstd::utf8::encode_utf8(b))
}

/// A byte string compares equal to itself.
pub proof fn lemma_lex_order_reflexive(a: Seq<u8>, i: int)
    requires
        0 <= i,
    ensures
        lex_order_from(a, a, i) == Order::Equal,
    decreases a.len() - i,
{
    if i < a.len() {
        lemma_lex_order_reflexive(a, i + 1);
    }
}

/// Swapping the arguments of the lexical order mirrors the outcome.
pub proof fn lemma_lex_order_mirror(a: Seq<u8>, b: Seq<u8>, i: int)
    requires
        0 <= i,
    ensures
        lex_order_from(a, b, i) == Order::Less <==> lex_order_from(b, a, i) == Order::Greater,
        lex_order_from(a, b, i) == Order::Equal <==> lex_order_from(b, a, i) == Order::Equal,
    decreases a.len() - i,
{
    if i < a.len() && i < b.len() && a[i] == b[i] {
        lemma_lex_order_mirror(a, b, i + 1);
    }
}

/// "Not greater" is transitive in lexical order.
pub proof fn lemma_lex_order_transitive(a: Seq<u8>, b: Seq<u8>, c: Seq<u8>, i: int)
    requires
        0 <= i,
        lex_order_from(a, b, i) != Order::Greater,
        lex_order_from(b, c, i) != Order::Greater,
    ensures
        lex_order_from(a, c, i) != Order::Greater,
    decreases a.len() - i,
{
    if i < a.len() && i < b.len() && i < c.len() && a[i] == b[i] && b[i] == c[i] {
        lemma_lex_order_transitive(a, b, c, i + 1);
    }
}

/// From a position up to which two byte strings agree, the lexical order
/// finds them equal exactly when they agree to the end.
proof fn lemma_lex_order_equal_from(a: Seq<u8>, b: Seq<u8>, i: int)
    requires
        0 <= i <= a.len(),
        i <= b.len(),
        forall|j: int| 0 <= j < i ==> a[j] == b[j],
    ensures
        lex_order_from(a, b, i) == Order::Equal <==> a == b,
    decreases a.len() - i,
{
    if i < a.len() && i < b.len() && a[i] == b[i] {
        lemma_lex_order_equal_from(a, b, i + 1);
    } else if i >= a.len() && i >= b.len() {
        assert(a =~= b);
    } else if i < a.len() && i < b.len() {
        assert(a[i] != b[i]);
    } else {
        assert(a.len() != b.len());
    }
}

/// Two texts are equal in raw lexical order exactly when they are the same
/// text.
pub proof fn lemma_text_order_equal(a: Seq<char>, b: Seq<char>)
    ensures
        text_order(a, b) == Order::Equal <==> a == b,
{
    let x = vstd::utf8::encode_utf8(a);
    let y = vstd::utf8::encode_utf8(b);
    lemma_lex_order_equal_from(x, y, 0);
    vstd::utf8::encode_utf8_decode_utf8(a);
    vstd::utf8::encode_utf8_decode_utf8(b);
}

/// Swapping the two texts mirrors their raw lexical order.
pub proof fn lemma_text_order_mirror(a: Seq<char>, b: Seq<char>)
    ensures
        text_order(a, b) == Order::Less <==> text_order(b, a) == Order::Greater,
        text_order(a, b) == Order::Equal <==> text_order(b, a) == Order::Equal,
        text_order(a, b) == Order::Greater <==> text_order(b, a) == Order::Less,
{
    let x = vstd::utf8::encode_utf8(a);
    let y = vstd::utf8::encode_utf8(b);
    lemma_lex_order_mirror(x, y, 0);
    lemma_lex_order_mirror(y, x, 0);
}

/// In raw lexical order, a text that is not greater than a second, which is
/// not greater than a third, is not greater than the third.
pub proof fn lemma_text_order_transitive(a: Seq<char>, b: Seq<char>, c: Seq<char>)
    requires
        text_order(a, b) != Order::Greater,
        text_order(b, c) != Order::Greater,
    ensures
        text_order(a, c) != Order::Greater,
{
    lemma_lex_order_transitive(
        vstd::utf8::encode_utf8(a),
        vstd::utf8::encode_utf8(b),
        vstd::utf8::encode_utf8(c),
        0,
    );
}

/// Compares two texts in raw lexical order.
pub fn compare_text(a: &str, b: &str) -> (o: Order)
    ensures
        o == text_order(a@, b@),
{
    let x = a.as_bytes();
    let y = b.as_bytes();
    let mut i: usize = 0;
    while i < x.len() && i < y.len()
        invariant
            i <= x.len(),
            i <= y.len(),
            x@ == a.spec_bytes(),
            y@ == b.spec_bytes(),
            lex_order_from(x@, y@, i as int) == text_order(a@, b@),
        decreases x.len() - i,
    {
        if x[i] < y[i] {
            return Order::Less;
        }
        if x[i] > y[i] {
            return Order::Greater;
        }
        i += 1;
    }
    if i < y.len() {
        Order::Less
    } else if i < x.len() {
        Order::Greater
    } else {
        Order::Equal
    }
}

/// Tests whether two texts are the same.
pub fn same_text(a: &str, b: &str) -> (r: bool)
    ensures
        r == (a@ == b@),
{
    proof {
        lemma_text_order_equal(a@, b@);
    }
    match compare_text(a, b) {
        Order::Equal => true,
        _ => false,
    }
}

/// `needle` occurs in `hay` starting at position `i`.
pub open spec fn occurs_at(hay: Seq<u8>, needle: Seq<u8>, i: int) -> bool {
    &&& 0 <= i
    &&& i + needle.len() <= hay.len()
    &&& hay.subrange(i, i + needle.len()) == needle
}

/// `needle` occurs somewhere in `hay` as a contiguous run.
pub open spec fn contains_bytes(hay: Seq<u8>, needle: Seq<u8>) -> bool {
    exists|i: int| occurs_at(hay, needle, i)
}

/// The text `hay` contains the text `needle`, by their UTF-8 bytes.
pub open spec fn text_contains(hay: Seq<char>, needle: Seq<char>) -> bool {
    contains_bytes(vstd::utf8::encode_utf8(hay), vstd::utf8::encode_utf8(needle))
}

/// Tests whether `needle` occurs in `hay` at position `start`.
fn matches_at(hay: &[u8], needle: &[u8], start: usize) -> (b: bool)
    requires
        start + needle@.len() <= hay@.len(),
    ensures
        b == occurs_at(hay@, needle@, start as int),
{
    let total: usize = hay.len();
    let mut k: usize = 0;
    while k < needle.len()
        invariant
            k <= needle@.len(),
            start + needle@.len() <= hay@.len(),
            total == hay@.len(),
            forall|j: int| 0 <= j < k ==> hay@[start + j] == needle@[j],
        decreases needle.len() - k,
    {
        if hay[start + k] != needle[k] {
            assert(hay@.subrange(start as int, start + needle@.len())[k as int] == hay@[start + k]);
            return false;
        }
        k += 1;
    }
    assert(hay@.subrange(start as int, start + needle@.len()) =~= needle@);
    true
}

/// Tests whether `hay` contains `needle`. The empty text is contained in
/// every text.
pub fn contains_text(hay: &str, needle: &str) -> (b: bool)
    ensures
        b == text_contains(hay@, needle@),
{
    let h = hay.as_bytes();
    let n = needle.as_bytes();
    if n.len() > h.len() {
        return false;
    }
    let last: usize = h.len() - n.len();
    let mut i: usize = 0;
    while i <= last
        invariant
            i <= last + 1,
            last + n@.len() == h@.len(),
            h@.len() <= usize::MAX,
            h@ == hay.spec_bytes(),
            n@ == needle.spec_bytes(),
            forall|j: int| 0 <= j < i ==> !occurs_at(h@, n@, j),
        decreases last + 1 - i,
    {
        if matches_at(h, n, i) {
            return true;
        }
        if i == last {
            return false;
        }
        i += 1;
    }
    false
}

/// What a list of texts holds, as plain values.
pub open spec fn text_views(texts: Seq<String>) -> Seq<Seq<char>> {
    Seq::new(texts.len(), |i: int| texts[i]@)
}

/// The lowercase form of a text: what `str::to_lowercase` returns for it.
pub uninterp spec fn lowercased(text: Seq<char>) -> Seq<char>;

/// Calls `str::to_lowercase`.
#[verifier::external_body]
pub(crate) fn to_lowercase(text: &str) -> (r: String)
    ensures
        r@ == lowercased(text@),
{
    text.to_lowercase()
}

/// A text that its lowercase form leaves unchanged.
pub open spec fn is_lowercase(text: Seq<char>) -> bool {
    lowercased(text) == text
}

/// Tests whether `text` is its own lowercase form.
pub fn is_normalized(text: &str) -> (b: bool)
    ensures
        b == is_lowercase(text@),
{
    let lower = to_lowercase(text);
    same_text(lower.as_str(), text)
}

} // verus!
