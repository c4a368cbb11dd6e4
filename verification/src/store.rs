//! The metadata container of one file, as the library sees it.
//!
//! The library never touches a container itself. It says what it needs next
//! as a `Request`, and is told what came of it as a `Reply`; whoever holds
//! the container carries the requests out. `MemoryStore` is a container held
//! in memory that does so, with switches to make it fail.

use vstd::prelude::*;

verus! {

/// Schema of the capture date.
pub const EXIF_SCHEMA: &'static str = "http://ns.adobe.com/exif/1.0/";

/// Schema of the descriptive fields: created date and subject.
pub const DUBLIN_CORE_SCHEMA: &'static str = "http://purl.org/dc/elements/1.1/";

/// Schema of the core creation date.
pub const XMP_SCHEMA: &'static str = "http://ns.adobe.com/xap/1.0/";

/// Name of the array that holds the tags, under `DUBLIN_CORE_SCHEMA`.
pub const SUBJECT: &'static str = "dc:subject";

/// How many fields may hold the creation date.
pub const DATE_FIELDS: usize = 3;

/// Largest index of an array item that can be asked for.
pub const LAST_INDEX: i32 = 2147483647;

/// One of the three fields that may hold the creation date of a file.
#[derive(Clone, Copy, Debug, PartialEq, Eq, Structural, Hash)]
pub enum DateField {
    /// `xmp:CreateDate` under the core schema.
    Core,
    /// `exif:DateTimeOriginal` under the imaging schema.
    Imaging,
    /// `dc:created` under the descriptive schema.
    Descriptive,
}

/// How a container is opened.
#[derive(Clone, Copy, Debug, PartialEq, Eq, Structural, Hash)]
pub enum OpenMode {
    /// For reading, the metadata only.
    ReadMetadataOnly,
    /// For changing the metadata.
    Update,
}

/// Why an operation on a container failed.
#[derive(Clone, Copy, Debug, PartialEq, Eq, Structural, Hash)]
pub enum StoreError {
    /// The container could not be opened, or holds no metadata.
    Open,
    /// A value could not be put into the container, or a date could not be
    /// put into words.
    Serialize,
    /// The container could not be closed.
    Close,
}

/// A value asked of an open container.
#[derive(Debug, PartialEq, Eq)]
pub enum Query {
    /// The text of a date field.
    Date(DateField),
    /// The item of the subject array at a one-based index.
    SubjectItem(i32),
}

/// A change to an open container.
#[derive(Debug, PartialEq, Eq)]
pub enum Edit {
    /// Remove the subject array.
    ClearSubject,
    /// Add an item at the end of the subject array, an unordered array.
    AppendSubject(String),
    /// Set a date field to a text.
    SetDate(DateField, String),
}

/// What the holder of a container is asked to do.
#[derive(Debug, PartialEq, Eq)]
pub enum Request {
    /// Open the container.
    Open(OpenMode),
    /// Read a value.
    Ask(Query),
    /// Make a change.
    Apply(Edit),
    /// Close the container; after a change, so that a failure leaves the
    /// file as it was.
    Close,
}

/// What came of a request.
#[derive(Debug, PartialEq, Eq)]
pub enum Reply {
    /// It was done, and there is nothing to hand back.
    Done,
    /// The value asked for.
    Value(String),
    /// There is no such value.
    Absent,
    /// It failed.
    Failed,
}

/// The fields in the order of their priority, lowest first: where several
/// hold a date, the precedence in force decides among them in this order.
pub open spec fn priority() -> Seq<DateField> {
    seq![DateField::Core, DateField::Imaging, DateField::Descriptive]
}

impl DateField {
    /// The schema of the field.
    pub open spec fn schema_text(self) -> Seq<char> {
        match self {
            DateField::Core => XMP_SCHEMA@,
            DateField::Imaging => EXIF_SCHEMA@,
            DateField::Descriptive => DUBLIN_CORE_SCHEMA@,
        }
    }

    /// The name of the field.
    pub open spec fn name_text(self) -> Seq<char> {
        match self {
            DateField::Core => "xmp:CreateDate"@,
            DateField::Imaging => "exif:DateTimeOriginal"@,
            DateField::Descriptive => "dc:created"@,
        }
    }

    /// The schema of the field.
    pub fn schema(self) -> (r: &'static str)
        ensures
            r@ == self.schema_text(),
    {
        match self {
            DateField::Core => XMP_SCHEMA,
            DateField::Imaging => EXIF_SCHEMA,
            DateField::Descriptive => DUBLIN_CORE_SCHEMA,
        }
    }

    /// The name of the field.
    pub fn name(self) -> (r: &'static str)
        ensures
            r@ == self.name_text(),
    {
        match self {
            DateField::Core => "xmp:CreateDate",
            DateField::Imaging => "exif:DateTimeOriginal",
            DateField::Descriptive => "dc:created",
        }
    }

    /// The field at a place of the priority order; the last one for a
    /// place behind it.
    pub fn at(place: usize) -> (r: DateField)
        ensures
            place < priority().len() ==> r == priority()[place as int],
            place >= priority().len() ==> r == DateField::Descriptive,
    {
        if place == 0 {
            DateField::Core
        } else if place == 1 {
            DateField::Imaging
        } else {
            DateField::Descriptive
        }
    }
}

impl Edit {
    /// A copy of the edit.
    pub fn copy(&self) -> (r: Edit)
        ensures
            r == *self,
    {
        match self {
            Edit::ClearSubject => Edit::ClearSubject,
            Edit::AppendSubject(item) => Edit::AppendSubject(item.clone()),
            Edit::SetDate(field, text) => Edit::SetDate(*field, text.clone()),
        }
    }
}

impl Reply {
    /// The request did not fail.
    pub open spec fn succeeded(self) -> bool {
        !(self is Failed)
    }

    /// The value handed back, if any.
    pub open spec fn value(self) -> Option<String> {
        match self {
            Reply::Value(text) => Some(text),
            _ => None,
        }
    }
}

/// What a container holds of the fields that the library reads and
/// writes: the three date fields and the subject array.
pub struct Content {
    pub core: Option<String>,
    pub imaging: Option<String>,
    pub descriptive: Option<String>,
    pub subject: Seq<String>,
}

impl Content {
    /// The text of a date field.
    pub open spec fn date(self, field: DateField) -> Option<String> {
        match field {
            DateField::Core => self.core,
            DateField::Imaging => self.imaging,
            DateField::Descriptive => self.descriptive,
        }
    }

    /// The reply of an open container to a query. An index outside the
    /// array gives no value.
    pub open spec fn answer(self, query: Query) -> Reply {
        match query {
            Query::Date(field) => match self.date(field) {
                Some(text) => Reply::Value(text),
                None => Reply::Absent,
            },
            Query::SubjectItem(index) => if 1 <= index <= self.subject.len() {
                Reply::Value(self.subject[index - 1])
            } else {
                Reply::Absent
            },
        }
    }

    /// The content after one change.
    pub open spec fn edited(self, edit: Edit) -> Content {
        match edit {
            Edit::ClearSubject => Content { subject: Seq::empty(), ..self },
            Edit::AppendSubject(item) => Content { subject: self.subject.push(item), ..self },
            Edit::SetDate(field, text) => match field {
                DateField::Core => Content { core: Some(text), ..self },
                DateField::Imaging => Content { imaging: Some(text), ..self },
                DateField::Descriptive => Content { descriptive: Some(text), ..self },
            },
        }
    }

    /// The content after a list of changes, made in order.
    pub open spec fn edited_all(self, edits: Seq<Edit>) -> Content
        decreases edits.len(),
    {
        if edits.len() == 0 {
            self
        } else {
            self.edited_all(edits.drop_last()).edited(edits.last())
        }
    }
}

/// A container held in memory. It answers requests as a container of a
/// file does, and can be told to fail.
#[derive(Debug)]
pub struct MemoryStore {
    /// Opening for reading succeeds.
    pub readable: bool,
    /// Opening for update succeeds.
    pub writable: bool,
    /// A change to the open container succeeds.
    pub accepts: bool,
    /// Closing succeeds.
    pub closes: bool,
    /// How the container is open, if it is.
    pub open: Option<OpenMode>,
    /// `xmp:CreateDate`.
    pub create_date: Option<String>,
    /// `exif:DateTimeOriginal`.
    pub date_time_original: Option<String>,
    /// `dc:created`.
    pub created: Option<String>,
    /// `dc:subject`.
    pub subject: Vec<String>,
}

impl MemoryStore {
    /// What the container holds.
    pub open spec fn content(&self) -> Content {
        Content {
            core: self.create_date,
            imaging: self.date_time_original,
            descriptive: self.created,
            subject: self.subject@,
        }
    }

    /// The container would open in this mode: it is not open, and the mode
    /// is not switched off.
    pub open spec fn opens_for(&self, mode: OpenMode) -> bool {
        self.open is None && match mode {
            OpenMode::ReadMetadataOnly => self.readable,
            OpenMode::Update => self.writable,
        }
    }

    /// A change to the container would be made: it opens for update and
    /// accepts changes.
    pub open spec fn takes_changes(&self) -> bool {
        self.opens_for(OpenMode::Update) && self.accepts
    }

    /// How the container is open after it was opened in this mode, where it
    /// could be, and closed again: not at all, or as it was before.
    pub open spec fn released(&self, mode: OpenMode) -> Option<OpenMode> {
        if self.opens_for(mode) {
            None
        } else {
            self.open
        }
    }

    /// Both containers have their switches set alike.
    pub open spec fn same_switches(&self, other: &Self) -> bool {
        &&& self.readable == other.readable
        &&& self.writable == other.writable
        &&& self.accepts == other.accepts
        &&& self.closes == other.closes
    }

    /// How the container answers a request, and what it is afterwards.
    ///
    /// Opening fails where `opens_for` does not hold. A query of a container
    /// that is not open fails. A change is made only to a container that is
    /// open for update and accepts changes; otherwise it fails and changes
    /// nothing. Closing releases the container even where it fails; with
    /// nothing open it fails.
    pub open spec fn serves(before: Self, request: Request, reply: Reply, after: Self) -> bool {
        &&& after.same_switches(&before)
        &&& match request {
            Request::Open(mode) => {
                &&& after.content() == before.content()
                &&& if before.opens_for(mode) {
                    reply == Reply::Done && after.open == Some(mode)
                } else {
                    reply == Reply::Failed && after.open == before.open
                }
            },
            Request::Ask(query) => {
                &&& after.content() == before.content()
                &&& after.open == before.open
                &&& reply == if before.open is None {
                    Reply::Failed
                } else {
                    before.content().answer(query)
                }
            },
            Request::Apply(edit) => {
                &&& after.open == before.open
                &&& if before.open == Some(OpenMode::Update) && before.accepts {
                    reply == Reply::Done && after.content() == before.content().edited(edit)
                } else {
                    reply == Reply::Failed && after.content() == before.content()
                }
            },
            Request::Close => {
                &&& after.content() == before.content()
                &&& after.open is None
                &&& reply == if before.open is Some && before.closes {
                    Reply::Done
                } else {
                    Reply::Failed
                }
            },
        }
    }

    /// A closed container with no metadata fields set, which opens, accepts
    /// changes and closes.
    pub fn new() -> (r: Self)
        ensures
            r.readable && r.writable && r.accepts && r.closes,
            r.open is None,
            r.content() == (Content {
                core: None,
                imaging: None,
                descriptive: None,
                subject: Seq::empty(),
            }),
    {
        MemoryStore {
            readable: true,
            writable: true,
            accepts: true,
            closes: true,
            open: None,
            create_date: None,
            date_time_original: None,
            created: None,
            subject: Vec::new(),
        }
    }

    /// Carries out a request.
    pub fn serve(&mut self, request: &Request) -> (reply: Reply)
        ensures
            Self::serves(*old(self), *request, reply, *final(self)),
    {
        match request {
            Request::Open(mode) => {
                let allowed = match mode {
                    OpenMode::ReadMetadataOnly => self.readable,
                    OpenMode::Update => self.writable,
                };
                if self.open.is_none() && allowed {
                    self.open = Some(*mode);
                    Reply::Done
                } else {
                    Reply::Failed
                }
            },
            Request::Ask(query) => {
                if self.open.is_none() {
                    Reply::Failed
                } else {
                    match query {
                        Query::Date(field) => {
                            let held = match field {
                                DateField::Core => &self.create_date,
                                DateField::Imaging => &self.date_time_original,
                                DateField::Descriptive => &self.created,
                            };
                            match held {
                                Some(text) => Reply::Value(text.clone()),
                                None => Reply::Absent,
                            }
                        },
                        Query::SubjectItem(index) => {
                            if 1 <= *index && (*index as usize) <= self.subject.len() {
                                Reply::Value(self.subject[(*index - 1) as usize].clone())
                            } else {
                                Reply::Absent
                            }
                        },
                    }
                }
            },
            Request::Apply(edit) => {
                let updating = match self.open {
                    Some(OpenMode::Update) => true,
                    _ => false,
                };
                if updating && self.accepts {
                    match edit {
                        Edit::ClearSubject => {
                            self.subject = Vec::new();
                        },
                        Edit::AppendSubject(item) => {
                            self.subject.push(item.clone());
                        },
                        Edit::SetDate(field, text) => {
                            match field {
                                DateField::Core => {
                                    self.create_date = Some(text.clone());
                                },
                                DateField::Imaging => {
                                    self.date_time_original = Some(text.clone());
                                },
                                DateField::Descriptive => {
                                    self.created = Some(text.clone());
                                },
                            }
                        },
                    }
                    assert(self.content() =~= old(self).content().edited(*edit));
                    Reply::Done
                } else {
                    Reply::Failed
                }
            },
            Request::Close => {
                let held = self.open.is_some();
                self.open = None;
                if held && self.closes {
                    Reply::Done
                } else {
                    Reply::Failed
                }
            },
        }
    }
}

} // verus!
