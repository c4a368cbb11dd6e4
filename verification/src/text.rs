//! Text helpers: views of string collections, the code-point order on texts,
//! substring containment, and the few operations of `str` that are taken on
//! trust from the standard library.

use vstd::prelude::*;

verus! {

/// The texts of a sequence of strings, in the same order.
pub open spec fn texts(items: Seq<String>) -> Seq<Seq<char>> {
    Seq::new(items.len(), |i: int| items[i]@)
}

/// The text of an optional string.
pub open spec fn text_of(item: Option<String>) -> Option<Seq<char>> {
    match item {
        Some(s) => Some(s@),
        None => None,
    }
}

/// `needle` occurs in `hay` as a contiguous run of characters.
pub open spec fn occurs_in(needle: Seq<char>, hay: Seq<char>) -> bool {
    exists|start: int|
        0 <= start && start + needle.len() <= hay.len() && #[trigger] hay.subrange(
            start,
            start + needle.len(),
        ) == needle
}

/// Strict lexicographic order on texts, characters compared by code point.
/// A proper prefix comes before the text it is a prefix of.
pub open spec fn text_lt(a: Seq<char>, b: Seq<char>) -> bool
    decreases a.len(),
{
    if b.len() == 0 {
        false
    } else if a.len() == 0 {
        true
    } else if a[0] != b[0] {
        (a[0] as int) < (b[0] as int)
    } else {
        text_lt(a.drop_first(), b.drop_first())
    }
}

/// What `str::to_lowercase` returns for a text: the lower-case mapping of
/// Unicode, which is a function of the text alone.
pub uninterp spec fn lowercase_of(text: Seq<char>) -> Seq<char>;

/// No text comes before itself.
pub proof fn lemma_text_lt_irreflexive(a: Seq<char>)
    ensures
        !text_lt(a, a),
    decreases a.len(),
{
    if a.len() > 0 {
        lemma_text_lt_irreflexive(a.drop_first());
    }
}

/// The order is transitive.
pub proof fn lemma_text_lt_transitive(a: Seq<char>, b: Seq<char>, c: Seq<char>)
    requires
        text_lt(a, b),
        text_lt(b, c),
    ensures
        text_lt(a, c),
    decreases a.len(),
{
    if a.len() > 0 && a[0] == b[0] && b[0] == c[0] {
        lemma_text_lt_transitive(a.drop_first(), b.drop_first(), c.drop_first());
    }
}

/// Two different texts are ordered one way or the other.
pub proof fn lemma_text_lt_connected(a: Seq<char>, b: Seq<char>)
    requires
        a != b,
    ensures
        text_lt(a, b) || text_lt(b, a),
    decreases a.len(),
{
    if a.len() == 0 || b.len() == 0 {
        if a.len() == 0 && b.len() == 0 {
            assert(a =~= b);
        }
    } else if a[0] == b[0] {
        let x = a.drop_first();
        let y = b.drop_first();
        if x == y {
            assert(a =~= seq![a[0]] + x);
            assert(b =~= seq![b[0]] + y);
        }
        lemma_text_lt_connected(x, y);
    } else {
        assert(a[0] as int != b[0] as int);
    }
}

/// The order never holds both ways.
pub proof fn lemma_text_lt_asymmetric(a: Seq<char>, b: Seq<char>)
    requires
        text_lt(a, b),
    ensures
        !text_lt(b, a),
    decreases a.len(),
{
    if a.len() > 0 && b.len() > 0 && a[0] == b[0] {
        lemma_text_lt_asymmetric(a.drop_first(), b.drop_first());
    }
}

/// The empty text occurs in every text.
pub proof fn lemma_empty_occurs(hay: Seq<char>)
    ensures
        occurs_in(Seq::<char>::empty(), hay),
{
    let needle = Seq::<char>::empty();
    assert(hay.subrange(0int, 0int + needle.len()) =~= needle);
}

/// Calls `str::to_lowercase`. The result is taken to be the Unicode
/// lower-case mapping of the text, and to be empty for the empty text, as the
/// standard library documents.
#[verifier::external_body]
pub(crate) fn lowercase(text: &str) -> (r: String)
    ensures
        r@ == lowercase_of(text@),
        text@.len() == 0 ==> r@.len() == 0,
{
    text.to_lowercase()
}

/// Calls `str::contains` with a string pattern. The result is taken to say
/// whether the pattern occurs in the text as a contiguous run.
#[verifier::external_body]
pub(crate) fn contains_text(hay: &str, needle: &str) -> (r: bool)
    ensures
        r == occurs_in(needle@, hay@),
{
    hay.contains(needle)
}

/// Compares two strings with `<`. The standard library orders strings
/// lexicographically by their bytes, which for UTF-8 is the order of their
/// code points.
#[verifier::external_body]
pub(crate) fn comes_before(a: &str, b: &str) -> (r: bool)
    ensures
        r == text_lt(a@, b@),
{
    a < b
}

} // verus!
