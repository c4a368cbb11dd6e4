//! The state behind the gallery window: the files, their vocabulary, the
//! selection and the search text. Drawing the window is not done here.

use crate::file::File;
use crate::tagcache::{strictly_sorted, tagged, TagCache};
use vstd::prelude::*;

verus! {

/// What the window holds.
#[derive(Debug)]
pub struct Tagthing {
    /// The vocabulary of `files` as it was when the state was made.
    pub tag_cache: TagCache,
    /// The files of the gallery, in the order in which they are shown.
    pub files: Vec<File>,
    /// The places of the selected files.
    pub selected: Vec<usize>,
    /// The search text.
    pub query: String,
}

/// How many pictures the gallery shows side by side.
pub const IMAGES_PER_ROW: usize = 4;

/// The picture at this place is the last of its row.
pub open spec fn closes_row(place: int) -> bool {
    (place + 1) % (IMAGES_PER_ROW as int) == 0
}

/// Says whether the picture at a place of the gallery is the last of its
/// row, so that the next one starts a new row.
pub fn ends_row(place: usize) -> (r: bool)
    ensures
        r == closes_row(place as int),
{
    place % IMAGES_PER_ROW == IMAGES_PER_ROW - 1
}

/// What the user did.
#[derive(Debug, Clone)]
pub enum Message {
    /// Picked the file at a place of the gallery.
    SelectImage(usize),
    /// Typed into the search box.
    UpdateQuery(String),
    /// Picked a tag of the file shown.
    TagSelected(String),
}

impl Tagthing {
    /// The state for a collection of files: nothing selected, nothing searched.
    pub fn new(files: Vec<File>) -> (r: Self)
        ensures
            r.files == files,
            r.selected@.len() == 0,
            r.query@.len() == 0,
            strictly_sorted(r.tag_cache@),
            forall|t: Seq<char>| #[trigger] r.tag_cache@.contains(t) <==> tagged(files@, t),
    {
        let tag_cache = TagCache::new(&files);
        Tagthing { tag_cache, files, selected: Vec::new(), query: String::new() }
    }

    /// Takes a message in. Selecting a file replaces the selection; typing
    /// and picking a tag both replace the search text. The files and their
    /// vocabulary stay as they are.
    pub fn update(&mut self, message: Message)
        ensures
            final(self).files == old(self).files,
            final(self).tag_cache == old(self).tag_cache,
            match message {
                Message::SelectImage(index) => {
                    &&& final(self).selected@ == seq![index]
                    &&& final(self).query == old(self).query
                },
                Message::UpdateQuery(query) => {
                    &&& final(self).query == query
                    &&& final(self).selected == old(self).selected
                },
                Message::TagSelected(tag) => {
                    &&& final(self).query == tag
                    &&& final(self).selected == old(self).selected
                },
            },
    {
        match message {
            Message::SelectImage(index) => {
                self.selected = vec![index];
            },
            Message::UpdateQuery(query) => {
                self.query = query;
            },
            Message::TagSelected(tag) => {
                self.query = tag;
            },
        }
    }

    /// The file whose details are shown: the first selected one, where the
    /// selection names a file of the gallery.
    pub fn current_file(&self) -> (r: Option<&File>)
        ensures
            match r {
                Some(file) => self.selected@.len() > 0 && self.selected@[0] < self.files@.len()
                    && *file == self.files@[self.selected@[0] as int],
                None => self.selected@.len() == 0 || self.selected@[0] >= self.files@.len(),
            },
    {
        if self.selected.len() > 0 && self.selected[0] < self.files.len() {
            Some(&self.files[self.selected[0]])
        } else {
            None
        }
    }
}

impl Default for Tagthing {
    /// The state for no files.
    fn default() -> (r: Self)
        ensures
            r.files@.len() == 0,
            r.selected@.len() == 0,
            r.query@.len() == 0,
            r.tag_cache@.len() == 0,
    {
        Tagthing {
            tag_cache: TagCache::default(),
            files: Vec::new(),
            selected: Vec::new(),
            query: String::new(),
        }
    }
}

} // verus!
