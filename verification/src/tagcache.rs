//! The vocabulary of tags over a collection of files, with substring search.

use crate::file::File;
use crate::text::{
    comes_before, contains_text, lemma_text_lt_connected, lemma_text_lt_transitive, lowercase,
    lowercase_of, occurs_in, text_lt, texts,
};
use vstd::prelude::*;

verus! {

/// Every tag of a collection of files, each once, in code-point order.
///
/// A vocabulary is a snapshot: it does not follow later changes of the
/// records it was built from.
#[derive(Debug)]
pub struct TagCache(Vec<String>);

/// Each text comes before all that follow it. No text occurs twice in such
/// a run.
pub open spec fn strictly_sorted(items: Seq<Seq<char>>) -> bool {
    forall|i: int, j: int| 0 <= i < j < items.len() ==> text_lt(#[trigger] items[i], #[trigger] items[j])
}

/// Some file of the collection has the tag.
pub open spec fn tagged(files: Seq<File>, tag: Seq<char>) -> bool {
    exists|i: int, j: int|
        0 <= i < files.len() && 0 <= j < files[i].tags@.len() && #[trigger] files[i].tags@[j]@
            == tag
}

/// One of the first `count` tags is the given one.
pub open spec fn among(tags: Seq<String>, count: int, tag: Seq<char>) -> bool {
    exists|k: int| 0 <= k < count && k < tags.len() && #[trigger] tags[k]@ == tag
}

/// The query occurs in the entry, both taken in lower case.
pub open spec fn matches(query: Seq<char>, entry: Seq<char>) -> bool {
    occurs_in(lowercase_of(query), lowercase_of(entry))
}

/// Puts a tag into a sorted vocabulary at its place, unless it is there.
fn insert_sorted(vocabulary: &mut Vec<String>, tag: &String)
    requires
        strictly_sorted(texts(old(vocabulary)@)),
    ensures
        strictly_sorted(texts(final(vocabulary)@)),
        forall|t: Seq<char>| #[trigger]
            texts(final(vocabulary)@).contains(t) <==> (texts(old(vocabulary)@).contains(t) || t
                == tag@),
{
    let ghost before = texts(vocabulary@);
    let mut i: usize = 0;
    while i < vocabulary.len() && comes_before(vocabulary[i].as_str(), tag.as_str())
        invariant
            i <= vocabulary.len(),
            *vocabulary == *old(vocabulary),
            before == texts(vocabulary@),
            forall|k: int| 0 <= k < i ==> text_lt(#[trigger] before[k], tag@),
        decreases vocabulary.len() - i,
    {
        i += 1;
    }
    if i < vocabulary.len() && vocabulary[i] == *tag {
        assert(before[i as int] == tag@);
        return ;
    }
    vocabulary.insert(i, tag.clone());
    let ghost after = texts(vocabulary@);
    proof {
        assert(after =~= before.insert(i as int, tag@));
        if i < before.len() {
            lemma_text_lt_connected(before[i as int], tag@);
        }
        assert forall|a: int, b: int| 0 <= a < b < after.len() implies text_lt(
            #[trigger] after[a],
            #[trigger] after[b],
        ) by {
            if b < i {
                assert(after[a] == before[a] && after[b] == before[b]);
            } else if b == i {
                assert(after[a] == before[a]);
            } else if a < i {
                assert(after[a] == before[a] && after[b] == before[b - 1]);
                if b - 1 > i {
                    assert(text_lt(before[a], before[b - 1]));
                } else {
                    lemma_text_lt_transitive(before[a], tag@, before[b - 1]);
                }
            } else if a == i {
                assert(after[b] == before[b - 1]);
                if b - 1 > i {
                    assert(text_lt(before[i as int], before[b - 1]));
                    lemma_text_lt_transitive(tag@, before[i as int], before[b - 1]);
                }
            } else {
                assert(after[a] == before[a - 1] && after[b] == before[b - 1]);
            }
        }
        assert forall|t: Seq<char>| #[trigger]
            after.contains(t) <==> (before.contains(t) || t == tag@) by {
            if after.contains(t) {
                let k = choose|k: int| 0 <= k < after.len() && after[k] == t;
                if k < i {
                    assert(before[k] == t);
                } else if k > i {
                    assert(before[k - 1] == t);
                }
            }
            if before.contains(t) {
                let k = choose|k: int| 0 <= k < before.len() && before[k] == t;
                if k < i {
                    assert(after[k] == t);
                } else {
                    assert(after[k + 1] == t);
                }
            }
            if t == tag@ {
                assert(after[i as int] == t);
            }
        }
    }
}

impl TagCache {
    /// The entries as texts, in order.
    pub closed spec fn view(&self) -> Seq<Seq<char>> {
        texts(self.0@)
    }

    /// Every vocabulary is sorted, and so holds no text twice.
    #[verifier::type_invariant]
    spec fn sorted(&self) -> bool {
        strictly_sorted(texts(self.0@))
    }

    /// Builds the vocabulary of a collection: the tags of all its files,
    /// sorted by code point, each exactly once.
    pub fn new(files: &Vec<File>) -> (r: Self)
        ensures
            strictly_sorted(r@),
            r@.no_duplicates(),
            forall|t: Seq<char>| #[trigger] r@.contains(t) <==> tagged(files@, t),
    {
        let mut cache: Vec<String> = Vec::new();
        let mut i: usize = 0;
        while i < files.len()
            invariant
                i <= files.len(),
                strictly_sorted(texts(cache@)),
                forall|t: Seq<char>| #[trigger]
                    texts(cache@).contains(t) <==> tagged(files@.take(i as int), t),
            decreases files.len() - i,
        {
            let tags = files[i].get_tags();
            let ghost done = files@.take(i as int);
            let mut j: usize = 0;
            while j < tags.len()
                invariant
                    i < files.len(),
                    j <= tags.len(),
                    tags == &files@[i as int].tags,
                    done == files@.take(i as int),
                    strictly_sorted(texts(cache@)),
                    forall|t: Seq<char>| #[trigger]
                        texts(cache@).contains(t) <==> (tagged(done, t) || among(
                            tags@,
                            j as int,
                            t,
                        )),
                decreases tags.len() - j,
            {
                let ghost earlier = texts(cache@);
                insert_sorted(&mut cache, &tags[j]);
                proof {
                    let now = texts(cache@);
                    let added = tags@[j as int]@;
                    assert forall|t: Seq<char>| #[trigger]
                        now.contains(t) <==> (tagged(done, t) || among(tags@, j + 1, t)) by {
                        assert(now.contains(t) <==> (earlier.contains(t) || t == added));
                        assert(earlier.contains(t) <==> (tagged(done, t) || among(
                            tags@,
                            j as int,
                            t,
                        )));
                        if among(tags@, j as int, t) {
                            let k = choose|k: int|
                                0 <= k < j && k < tags@.len() && #[trigger] tags@[k]@ == t;
                            assert(tags@[k]@ == t);
                        }
                        if t == added {
                            assert(tags@[j as int]@ == t);
                        }
                        if among(tags@, j + 1, t) {
                            let k = choose|k: int|
                                0 <= k < j + 1 && k < tags@.len() && #[trigger] tags@[k]@ == t;
                            if k < j {
                                assert(tags@[k]@ == t);
                                assert(among(tags@, j as int, t));
                            }
                        }
                    }
                }
                j += 1;
            }
            proof {
                let now = texts(cache@);
                let next = files@.take(i + 1);
                assert forall|t: Seq<char>| #[trigger] now.contains(t) <==> tagged(next, t) by {
                    assert(now.contains(t) <==> (tagged(done, t) || among(
                        tags@,
                        tags@.len() as int,
                        t,
                    )));
                    if tagged(done, t) {
                        let (a, b) = choose|a: int, b: int|
                            0 <= a < done.len() && 0 <= b < done[a].tags@.len()
                                && #[trigger] done[a].tags@[b]@ == t;
                        assert(next[a].tags@[b]@ == t);
                    }
                    if among(tags@, tags@.len() as int, t) {
                        let k = choose|k: int|
                            0 <= k < tags@.len() && k < tags@.len() && #[trigger] tags@[k]@ == t;
                        assert(next[i as int].tags@[k]@ == t);
                    }
                    if tagged(next, t) {
                        let (a, b) = choose|a: int, b: int|
                            0 <= a < next.len() && 0 <= b < next[a].tags@.len()
                                && #[trigger] next[a].tags@[b]@ == t;
                        if a < i {
                            assert(done[a].tags@[b]@ == t);
                        } else {
                            assert(tags@[b]@ == t);
                        }
                    }
                }
            }
            i += 1;
        }
        proof {
            assert(files@.take(files@.len() as int) =~= files@);
            lemma_sorted_has_no_duplicates(texts(cache@));
        }
        TagCache(cache)
    }

    /// The entries, in order.
    pub fn tags(&self) -> (r: &Vec<String>)
        ensures
            texts(r@) == self@,
            strictly_sorted(self@),
    {
        proof {
            use_type_invariant(self);
        }
        &self.0
    }

    /// The entries that hold the query, in the vocabulary's order. Letter
    /// case is ignored; nothing but containment counts, so the empty query
    /// finds every entry.
    pub fn search(&self, query: &str) -> (r: Vec<String>)
        ensures
            texts(r@) == self@.filter(|entry: Seq<char>| matches(query@, entry)),
            query@.len() == 0 ==> texts(r@) == self@,
            strictly_sorted(texts(r@)),
    {
        let wanted = lowercase(query);
        let mut lowered: Vec<String> = Vec::new();
        let mut i: usize = 0;
        while i < self.0.len()
            invariant
                i <= self.0.len(),
                lowered@.len() == i,
                forall|k: int| 0 <= k < i ==> #[trigger] lowered@[k]@ == lowercase_of(self.0@[k]@),
            decreases self.0.len() - i,
        {
            lowered.push(lowercase(self.0[i].as_str()));
            i += 1;
        }
        proof {
            use_type_invariant(self);
            lemma_selected_is_filter(self@, texts(lowered@), query@);
        }
        select(&self.0, &lowered, wanted.as_str())
    }
}

/// The entries whose lower-case form holds the wanted text, in order. An
/// entry without a lower-case form is left out.
pub open spec fn selected(entries: Seq<Seq<char>>, lowered: Seq<Seq<char>>, wanted: Seq<char>) -> Seq<
    Seq<char>,
>
    decreases entries.len(),
{
    if entries.len() == 0 {
        Seq::empty()
    } else {
        let rest = selected(entries.drop_last(), lowered, wanted);
        let place = entries.len() - 1;
        if place < lowered.len() && occurs_in(wanted, lowered[place]) {
            rest.push(entries.last())
        } else {
            rest
        }
    }
}

/// Picks the entries whose lower-case form, given beside them place by
/// place, holds the wanted text. The order is kept, so that a sorted run
/// stays sorted; the empty text is held by every form.
pub fn select(entries: &Vec<String>, lowered: &Vec<String>, wanted: &str) -> (r: Vec<String>)
    ensures
        texts(r@) == selected(texts(entries@), texts(lowered@), wanted@),
        wanted@.len() == 0 && lowered@.len() >= entries@.len() ==> texts(r@) == texts(entries@),
        strictly_sorted(texts(entries@)) ==> strictly_sorted(texts(r@)),
{
    let ghost all = texts(entries@);
    let ghost forms = texts(lowered@);
    let mut found: Vec<String> = Vec::new();
    let mut i: usize = 0;
    proof {
        assert(all.take(0) =~= Seq::<Seq<char>>::empty());
        assert(all.take(0) =~= texts(found@));
    }
    while i < entries.len()
        invariant
            i <= entries.len(),
            all == texts(entries@),
            forms == texts(lowered@),
            texts(found@) == selected(all.take(i as int), forms, wanted@),
            wanted@.len() == 0 && forms.len() >= all.len() ==> texts(found@) == all.take(i as int),
            strictly_sorted(all) ==> strictly_sorted(texts(found@)),
            strictly_sorted(all) ==> forall|k: int, m: int|
                0 <= k < found@.len() && i <= m < all.len() ==> text_lt(
                    #[trigger] texts(found@)[k],
                    #[trigger] all[m],
                ),
        decreases entries.len() - i,
    {
        let ghost next = all.take(i + 1);
        let ghost earlier = texts(found@);
        proof {
            assert(next.drop_last() =~= all.take(i as int));
            assert(next.last() == all[i as int]);
            if wanted@.len() == 0 && i < lowered.len() {
                crate::text::lemma_empty_occurs(forms[i as int]);
                assert(wanted@ =~= Seq::<char>::empty());
            }
        }
        if i < lowered.len() && contains_text(lowered[i].as_str(), wanted) {
            found.push(entries[i].clone());
            proof {
                let now = texts(found@);
                assert(now =~= earlier.push(all[i as int]));
                assert(next =~= all.take(i as int).push(all[i as int]));
                if strictly_sorted(all) {
                    assert forall|a: int, b: int| 0 <= a < b < now.len() implies text_lt(
                        #[trigger] now[a],
                        #[trigger] now[b],
                    ) by {
                        if b < earlier.len() {
                            assert(now[a] == earlier[a] && now[b] == earlier[b]);
                        } else {
                            assert(now[a] == earlier[a]);
                            assert(now[b] == all[i as int]);
                        }
                    }
                    assert forall|k: int, m: int|
                        0 <= k < now.len() && i + 1 <= m < all.len() implies text_lt(
                        #[trigger] now[k],
                        #[trigger] all[m],
                    ) by {
                        if k < earlier.len() {
                            assert(now[k] == earlier[k]);
                        } else {
                            assert(now[k] == all[i as int]);
                        }
                    }
                }
            }
        }
        i += 1;
    }
    assert(all.take(all.len() as int) =~= all);
    found
}

/// Selecting by the lower-case forms of the entries themselves is
/// filtering by `matches`.
proof fn lemma_selected_is_filter(entries: Seq<Seq<char>>, lowered: Seq<Seq<char>>, query: Seq<char>)
    requires
        lowered.len() >= entries.len(),
        forall|k: int| 0 <= k < entries.len() ==> #[trigger] lowered[k] == lowercase_of(entries[k]),
    ensures
        selected(entries, lowered, lowercase_of(query)) == entries.filter(
            |entry: Seq<char>| matches(query, entry),
        ),
    decreases entries.len(),
{
    reveal(Seq::filter);
    if entries.len() > 0 {
        lemma_selected_is_filter(entries.drop_last(), lowered, query);
    }
}

impl Default for TagCache {
    /// The vocabulary of no files.
    fn default() -> (r: Self)
        ensures
            r@.len() == 0,
    {
        TagCache(Vec::new())
    }
}

/// A sorted run holds no text twice: a vocabulary has a tag exactly once
/// where any file has it, however many files have it and however often.
pub proof fn lemma_sorted_has_no_duplicates(items: Seq<Seq<char>>)
    requires
        strictly_sorted(items),
    ensures
        items.no_duplicates(),
{
    assert forall|i: int, j: int| 0 <= i < items.len() && 0 <= j < items.len() && i != j implies
        items[i] != items[j] by {
        crate::text::lemma_text_lt_irreflexive(items[i]);
        if i < j {
            assert(text_lt(items[i], items[j]));
        } else {
            assert(text_lt(items[j], items[i]));
        }
    }
}

/// Two sorted runs that hold the same texts are the same run: what a
/// vocabulary holds decides the vocabulary.
pub proof fn lemma_sorted_run_is_unique(a: Seq<Seq<char>>, b: Seq<Seq<char>>)
    requires
        strictly_sorted(a),
        strictly_sorted(b),
        forall|t: Seq<char>| a.contains(t) <==> b.contains(t),
    ensures
        a == b,
    decreases a.len(),
{
    if a.len() == 0 {
        if b.len() > 0 {
            assert(b.contains(b[0]));
        }
        assert(a =~= b);
    } else {
        assert(a.contains(a[0]));
        let k = choose|k: int| 0 <= k < b.len() && b[k] == a[0];
        assert(b.contains(b[0]));
        let j = choose|j: int| 0 <= j < a.len() && a[j] == b[0];
        if k > 0 {
            assert(text_lt(b[0], b[k]));
            if j > 0 {
                assert(text_lt(a[0], a[j]));
                crate::text::lemma_text_lt_asymmetric(a[0], a[j]);
            } else {
                crate::text::lemma_text_lt_irreflexive(a[0]);
            }
        }
        assert(a[0] == b[0]);
        let x = a.drop_first();
        let y = b.drop_first();
        assert forall|t: Seq<char>| x.contains(t) <==> y.contains(t) by {
            if x.contains(t) {
                let i = choose|i: int| 0 <= i < x.len() && x[i] == t;
                assert(a[i + 1] == t);
                assert(text_lt(a[0], a[i + 1]));
                assert(a.contains(t));
                let m = choose|m: int| 0 <= m < b.len() && b[m] == t;
                if m == 0 {
                    crate::text::lemma_text_lt_irreflexive(t);
                }
                assert(y[m - 1] == t);
            }
            if y.contains(t) {
                let i = choose|i: int| 0 <= i < y.len() && y[i] == t;
                assert(b[i + 1] == t);
                assert(text_lt(b[0], b[i + 1]));
                assert(b.contains(t));
                let m = choose|m: int| 0 <= m < a.len() && a[m] == t;
                if m == 0 {
                    crate::text::lemma_text_lt_irreflexive(t);
                }
                assert(x[m - 1] == t);
            }
        }
        assert forall|i: int, m: int| 0 <= i < m < x.len() implies text_lt(
            #[trigger] x[i],
            #[trigger] x[m],
        ) by {
            assert(text_lt(a[i + 1], a[m + 1]));
        }
        assert forall|i: int, m: int| 0 <= i < m < y.len() implies text_lt(
            #[trigger] y[i],
            #[trigger] y[m],
        ) by {
            assert(text_lt(b[i + 1], b[m + 1]));
        }
        lemma_sorted_run_is_unique(x, y);
        assert(a =~= seq![a[0]] + x);
        assert(b =~= seq![b[0]] + y);
    }
}

} // verus!
