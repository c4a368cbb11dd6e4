//! The record of one file: its path, its creation date and its tags.

use crate::dates::Timestamp;
use crate::store::{DateField, Edit, StoreError};
use crate::text::texts;
use vstd::prelude::*;

verus! {

/// The metadata of one file as held in memory. The file's own metadata
/// container is the durable copy; a record is a working copy of it.
#[derive(Debug, Clone, Hash)]
pub struct File {
    /// Where the file is.
    pub path: String,
    /// The creation date, where one could be resolved.
    pub date: Option<Timestamp>,
    /// The tags, in the order in which they were found or added. A tag may
    /// occur more than once.
    pub tags: Vec<String>,
}

/// The place of the first item equal to `wanted`, or the length of the run
/// where there is none.
pub open spec fn first_place(items: Seq<Seq<char>>, wanted: Seq<char>) -> int
    decreases items.len(),
{
    if items.len() == 0 {
        0
    } else if items[0] == wanted {
        0
    } else {
        1 + first_place(items.drop_first(), wanted)
    }
}

/// `first_place` is within the run exactly when the item occurs, and then it
/// is the least place that holds it.
pub proof fn lemma_first_place(items: Seq<Seq<char>>, wanted: Seq<char>)
    ensures
        0 <= first_place(items, wanted) <= items.len(),
        first_place(items, wanted) < items.len() <==> items.contains(wanted),
        first_place(items, wanted) < items.len() ==> items[first_place(items, wanted)] == wanted,
        forall|k: int| 0 <= k < first_place(items, wanted) ==> items[k] != wanted,
    decreases items.len(),
{
    if items.len() > 0 && items[0] != wanted {
        let rest = items.drop_first();
        lemma_first_place(rest, wanted);
        let p = first_place(rest, wanted);
        assert forall|k: int| 0 <= k < 1 + p implies items[k] != wanted by {
            if k > 0 {
                assert(items[k] == rest[k - 1]);
            }
        }
        if p < rest.len() {
            assert(items[1 + p] == rest[p]);
        }
        if items.contains(wanted) {
            let k = choose|k: int| 0 <= k < items.len() && items[k] == wanted;
            assert(rest[k - 1] == wanted);
        }
    } else if items.len() > 0 {
        assert(items[0] == wanted);
    }
}

impl File {
    /// The tags as texts.
    pub open spec fn tag_texts(&self) -> Seq<Seq<char>> {
        texts(self.tags@)
    }

    /// Adds a tag at the end, whether or not the record has it already.
    pub fn add_tag(&mut self, new_tag: &str)
        ensures
            final(self).tag_texts() == old(self).tag_texts().push(new_tag@),
            final(self).path == old(self).path,
            final(self).date == old(self).date,
    {
        self.tags.push(new_tag.to_owned());
        assert(self.tag_texts() =~= old(self).tag_texts().push(new_tag@));
    }

    /// Replaces all tags.
    pub fn set_tags(&mut self, new_tags: Vec<String>)
        ensures
            final(self).tags == new_tags,
            final(self).path == old(self).path,
            final(self).date == old(self).date,
    {
        self.tags = new_tags;
    }

    /// The tags, in order.
    pub fn get_tags(&self) -> (r: &Vec<String>)
        ensures
            r == &self.tags,
    {
        &self.tags
    }

    /// Removes the first tag equal to `tag_to_remove`. Where the record has
    /// no such tag, fails and leaves the record as it was.
    pub fn remove_tag(&mut self, tag_to_remove: &str) -> (r: Result<(), ()>)
        ensures
            r is Ok <==> old(self).tag_texts().contains(tag_to_remove@),
            r is Ok ==> final(self).tags@ == old(self).tags@.remove(
                first_place(old(self).tag_texts(), tag_to_remove@),
            ),
            r is Ok ==> final(self).tag_texts() == old(self).tag_texts().remove(
                first_place(old(self).tag_texts(), tag_to_remove@),
            ),
            r is Err ==> final(self).tags == old(self).tags,
            final(self).path == old(self).path,
            final(self).date == old(self).date,
    {
        let wanted = tag_to_remove.to_owned();
        let ghost all = self.tag_texts();
        let mut i: usize = 0;
        proof {
            lemma_first_place(all, wanted@);
        }
        while i < self.tags.len()
            invariant
                i <= self.tags.len(),
                *self == *old(self),
                all == self.tag_texts(),
                wanted@ == tag_to_remove@,
                forall|k: int| 0 <= k < i ==> all[k] != wanted@,
            decreases self.tags.len() - i,
        {
            if self.tags[i] == wanted {
                assert(all[i as int] == wanted@);
                assert(first_place(all, wanted@) == i) by {
                    lemma_first_place(all, wanted@);
                }
                self.tags.remove(i);
                assert(self.tag_texts() =~= all.remove(i as int));
                return Ok(());
            }
            i += 1;
        }
        assert(!all.contains(wanted@));
        Err(())
    }
}

/// The records of the files that could be read, in order.
pub open spec fn gathered(outcomes: Seq<Result<File, StoreError>>) -> Seq<File>
    decreases outcomes.len(),
{
    if outcomes.len() == 0 {
        Seq::empty()
    } else {
        match outcomes.last() {
            Ok(file) => gathered(outcomes.drop_last()).push(file),
            Err(_) => gathered(outcomes.drop_last()),
        }
    }
}

/// The changes that replace the subject array by a list of tags: the array
/// is removed, then each tag is added in order.
pub open spec fn tag_edits_of(tags: Seq<String>) -> Seq<Edit> {
    seq![Edit::ClearSubject] + Seq::new(tags.len(), |i: int| Edit::AppendSubject(tags[i]))
}

/// The changes that set all three date fields to one text.
pub open spec fn date_edits_of(text: String) -> Seq<Edit> {
    seq![
        Edit::SetDate(DateField::Descriptive, text),
        Edit::SetDate(DateField::Imaging, text),
        Edit::SetDate(DateField::Core, text),
    ]
}

/// The changes that set all three date fields to one text, so that a tool
/// which reads only one of them finds the same date.
pub fn set_all_dates(text: &String) -> (r: Vec<Edit>)
    ensures
        r@ == date_edits_of(*text),
{
    let r = vec![
        Edit::SetDate(DateField::Descriptive, text.clone()),
        Edit::SetDate(DateField::Imaging, text.clone()),
        Edit::SetDate(DateField::Core, text.clone()),
    ];
    assert(r@ =~= date_edits_of(*text));
    r
}

impl File {
    /// The changes that make the subject array of a container equal to the
    /// tags of the record.
    pub fn tag_edits(&self) -> (r: Vec<Edit>)
        ensures
            r@ == tag_edits_of(self.tags@),
    {
        let mut edits: Vec<Edit> = Vec::new();
        edits.push(Edit::ClearSubject);
        let mut i: usize = 0;
        while i < self.tags.len()
            invariant
                i <= self.tags.len(),
                edits@.len() == i + 1,
                edits@[0] == Edit::ClearSubject,
                forall|k: int| 0 <= k < i ==> #[trigger] edits@[k + 1] == Edit::AppendSubject(
                    self.tags@[k],
                ),
            decreases self.tags.len() - i,
        {
            edits.push(Edit::AppendSubject(self.tags[i].clone()));
            i += 1;
        }
        assert(edits@ =~= tag_edits_of(self.tags@)) by {
            let wanted = tag_edits_of(self.tags@);
            assert forall|k: int| 0 <= k < wanted.len() implies edits@[k] == wanted[k] by {
                if k > 0 {
                    assert(edits@[(k - 1) + 1] == Edit::AppendSubject(self.tags@[k - 1]));
                }
            }
        }
        edits
    }

    /// The changes that write the date of the record into all three date
    /// fields. A record without date asks for no change, so that what a
    /// container holds is left alone. A date that cannot be put into words
    /// gives `Serialize`.
    pub fn date_edits(&self) -> (r: Result<Vec<Edit>, StoreError>)
        ensures
            match self.date {
                None => r is Ok && r->Ok_0@.len() == 0,
                Some(date) => match date.text() {
                    None => r == Err::<Vec<Edit>, StoreError>(StoreError::Serialize),
                    Some(text) => r is Ok && exists|written: String|
                        #![auto]
                        written@ == text && r->Ok_0@ == date_edits_of(written),
                },
            },
    {
        match &self.date {
            None => Ok(Vec::new()),
            Some(date) => match date.to_text() {
                None => Err(StoreError::Serialize),
                Some(written) => Ok(set_all_dates(&written)),
            },
        }
    }

    /// Gathers the records of a scan over many files. A file that could not
    /// be read is left out, without a word; the others keep their order.
    pub fn read_dir(outcomes: Vec<Result<File, StoreError>>) -> (r: Vec<File>)
        ensures
            r@ == gathered(outcomes@),
    {
        let ghost all = outcomes@;
        let mut files: Vec<File> = Vec::new();
        for outcome in iter: outcomes
            invariant
                iter.seq() == all,
                files@ == gathered(all.take(iter.index() as int)),
        {
            let ghost next = all.take(iter.index() + 1);
            assert(next.drop_last() =~= all.take(iter.index() as int));
            assert(next.last() == outcome);
            match outcome {
                Ok(file) => files.push(file),
                Err(_) => {},
            }
        }
        assert(all.take(all.len() as int) =~= all);
        files
    }
}

} // verus!
