//! Reading and writing one file's metadata, as a conversation with whoever
//! holds the container.
//!
//! A session says what it needs next (`pending`) and takes in what came of
//! it (`supply`), until it needs nothing more. Whatever the replies are, a
//! session opens the container at most once, closes it exactly once where it
//! was opened, and ends after finitely many replies.

use crate::dates::{candidate_texts, resolve, resolved};
use crate::file::File;
use crate::store::{
    priority, DateField, Edit, OpenMode, Query, Reply, Request, StoreError, DATE_FIELDS,
    LAST_INDEX,
};
use vstd::prelude::*;

verus! {

/// Where a session stands.
#[derive(Clone, Copy, Debug, PartialEq, Eq, Structural, Hash)]
pub enum Phase {
    /// The container is not open yet.
    Opening,
    /// The container is open and has to be closed.
    Open,
    /// The session has ended; the container is not open.
    Done,
}

/// Reads the record of one file: the three date fields in priority order,
/// then the items of the subject array from index 1 on, up to the first
/// index that gives no value.
#[derive(Debug)]
pub struct ReadSession {
    /// Where the file is.
    pub path: String,
    /// Where the session stands.
    pub phase: Phase,
    /// The container could not be opened.
    pub refused: bool,
    /// The texts of the date fields read so far, absent ones included.
    pub candidates: Vec<Option<String>>,
    /// The tags read so far.
    pub tags: Vec<String>,
    /// An index of the subject array gave no value.
    pub scanned: bool,
}

/// Makes a list of changes to one file's metadata, in order, and stops at
/// the first that fails.
#[derive(Debug)]
pub struct WriteSession {
    /// The changes to make.
    pub edits: Vec<Edit>,
    /// How many of them were made.
    pub next: usize,
    /// Where the session stands.
    pub phase: Phase,
    /// The first failure, if any.
    pub failure: Option<StoreError>,
}

impl ReadSession {
    /// The date fields are not all read yet.
    pub open spec fn wants_date(&self) -> bool {
        self.phase == Phase::Open && self.candidates@.len() < priority().len()
    }

    /// The date fields are read and the scan of the subject array goes on.
    pub open spec fn wants_item(&self) -> bool {
        self.phase == Phase::Open && self.candidates@.len() >= priority().len() && !self.scanned
            && self.tags@.len() < LAST_INDEX
    }

    /// What the session needs next; `None` once it has ended.
    pub open spec fn pending_request(&self) -> Option<Request> {
        match self.phase {
            Phase::Opening => Some(Request::Open(OpenMode::ReadMetadataOnly)),
            Phase::Open => if self.wants_date() {
                Some(Request::Ask(Query::Date(priority()[self.candidates@.len() as int])))
            } else if self.wants_item() {
                Some(Request::Ask(Query::SubjectItem((self.tags@.len() + 1) as i32)))
            } else {
                Some(Request::Close)
            },
            Phase::Done => None,
        }
    }

    /// How `after` follows from `before` when `reply` answers what `before`
    /// needed. A date field that gives no value is an absent candidate. The
    /// scan of the subject array ends at the first index that gives no
    /// value, whether the array ends there or the read failed. Only a
    /// failure to open is held against the file.
    pub open spec fn follows(before: Self, reply: Reply, after: Self) -> bool {
        &&& after.path == before.path
        &&& match before.phase {
            Phase::Opening => {
                &&& after.phase == if reply.succeeded() {
                    Phase::Open
                } else {
                    Phase::Done
                }
                &&& after.refused == !reply.succeeded()
                &&& after.candidates == before.candidates
                &&& after.tags == before.tags
                &&& after.scanned == before.scanned
            },
            Phase::Open => if before.wants_date() {
                &&& after.phase == Phase::Open
                &&& after.refused == before.refused
                &&& after.candidates@ == before.candidates@.push(reply.value())
                &&& after.tags == before.tags
                &&& after.scanned == before.scanned
            } else if before.wants_item() {
                &&& after.phase == Phase::Open
                &&& after.refused == before.refused
                &&& after.candidates == before.candidates
                &&& match reply {
                    Reply::Value(item) => after.tags@ == before.tags@.push(item) && after.scanned
                        == before.scanned,
                    _ => after.tags == before.tags && after.scanned,
                }
            } else {
                &&& after.phase == Phase::Done
                &&& after.refused == before.refused
                &&& after.candidates == before.candidates
                &&& after.tags == before.tags
                &&& after.scanned == before.scanned
            },
            Phase::Done => after == before,
        }
    }

    /// An upper bound on the replies the session still takes in.
    pub open spec fn remaining(&self) -> nat {
        match self.phase {
            Phase::Opening => (LAST_INDEX + 5) as nat,
            Phase::Open => {
                let dates = if self.candidates@.len() < priority().len() {
                    priority().len() - self.candidates@.len()
                } else {
                    0
                };
                let items = if !self.scanned && self.tags@.len() < LAST_INDEX {
                    LAST_INDEX - self.tags@.len()
                } else {
                    0
                };
                (dates + items + 1) as nat
            },
            Phase::Done => 0,
        }
    }

    /// A session for the file at `path`, before anything was asked.
    pub fn begin(path: String) -> (r: Self)
        ensures
            r.path == path,
            r.phase == Phase::Opening,
            !r.refused,
            r.candidates@.len() == 0,
            r.tags@.len() == 0,
            !r.scanned,
    {
        ReadSession {
            path,
            phase: Phase::Opening,
            refused: false,
            candidates: Vec::new(),
            tags: Vec::new(),
            scanned: false,
        }
    }

    /// What the session needs next; `None` once it has ended.
    pub fn pending(&self) -> (r: Option<Request>)
        ensures
            r == self.pending_request(),
    {
        match self.phase {
            Phase::Opening => Some(Request::Open(OpenMode::ReadMetadataOnly)),
            Phase::Open => if self.candidates.len() < DATE_FIELDS {
                Some(Request::Ask(Query::Date(DateField::at(self.candidates.len()))))
            } else if !self.scanned && self.tags.len() < LAST_INDEX as usize {
                Some(Request::Ask(Query::SubjectItem((self.tags.len() + 1) as i32)))
            } else {
                Some(Request::Close)
            },
            Phase::Done => None,
        }
    }

    /// Takes in the reply to what was pending. A session that has ended
    /// takes nothing in.
    pub fn supply(&mut self, reply: Reply)
        ensures
            Self::follows(*old(self), reply, *final(self)),
            old(self).phase != Phase::Done ==> final(self).remaining() < old(self).remaining(),
    {
        match self.phase {
            Phase::Opening => {
                match reply {
                    Reply::Failed => {
                        self.phase = Phase::Done;
                        self.refused = true;
                    },
                    _ => {
                        self.phase = Phase::Open;
                        self.refused = false;
                    },
                }
            },
            Phase::Open => {
                if self.candidates.len() < DATE_FIELDS {
                    match reply {
                        Reply::Value(text) => self.candidates.push(Some(text)),
                        _ => self.candidates.push(None),
                    }
                } else if !self.scanned && self.tags.len() < LAST_INDEX as usize {
                    match reply {
                        Reply::Value(item) => self.tags.push(item),
                        _ => {
                            self.scanned = true;
                        },
                    }
                } else {
                    self.phase = Phase::Done;
                }
            },
            Phase::Done => {},
        }
    }

    /// The record read, once the session has ended: the path, the date
    /// resolved from the three candidates, and the tags in the order of
    /// their indices. A container that could not be opened gives `Open`.
    /// `None` while the session has not ended.
    pub fn finish(self) -> (r: Option<Result<File, StoreError>>)
        ensures
            self.phase != Phase::Done <==> r is None,
            self.phase == Phase::Done && self.refused ==> r == Some(
                Err::<File, StoreError>(StoreError::Open),
            ),
            self.phase == Phase::Done && !self.refused ==> r == Some(
                Ok::<File, StoreError>(
                    File {
                        path: self.path,
                        date: resolved(candidate_texts(self.candidates@)),
                        tags: self.tags,
                    },
                ),
            ),
    {
        match self.phase {
            Phase::Done => {
                if self.refused {
                    Some(Err(StoreError::Open))
                } else {
                    let date = resolve(&self.candidates);
                    Some(Ok(File { path: self.path, date, tags: self.tags }))
                }
            },
            _ => None,
        }
    }
}

impl WriteSession {
    /// A change is to be made next.
    pub open spec fn wants_edit(&self) -> bool {
        self.phase == Phase::Open && self.failure is None && self.next < self.edits@.len()
    }

    /// What the session needs next; `None` once it has ended.
    pub open spec fn pending_request(&self) -> Option<Request> {
        match self.phase {
            Phase::Opening => Some(Request::Open(OpenMode::Update)),
            Phase::Open => if self.wants_edit() {
                Some(Request::Apply(self.edits@[self.next as int]))
            } else {
                Some(Request::Close)
            },
            Phase::Done => None,
        }
    }

    /// How `after` follows from `before` when `reply` answers what `before`
    /// needed. The first failure is kept: a container that does not open
    /// gives `Open`, a change that fails gives `Serialize` and no further
    /// change is tried, a close that fails gives `Close` unless a change
    /// had failed before it.
    pub open spec fn follows(before: Self, reply: Reply, after: Self) -> bool {
        &&& after.edits == before.edits
        &&& match before.phase {
            Phase::Opening => {
                &&& after.next == before.next
                &&& after.phase == if reply.succeeded() {
                    Phase::Open
                } else {
                    Phase::Done
                }
                &&& after.failure == if reply.succeeded() {
                    before.failure
                } else {
                    Some(StoreError::Open)
                }
            },
            Phase::Open => if before.wants_edit() {
                &&& after.phase == Phase::Open
                &&& after.next == if reply.succeeded() {
                    before.next + 1
                } else {
                    before.next as int
                }
                &&& after.failure == if reply.succeeded() {
                    None
                } else {
                    Some(StoreError::Serialize)
                }
            } else {
                &&& after.phase == Phase::Done
                &&& after.next == before.next
                &&& after.failure == if before.failure is None && !reply.succeeded() {
                    Some(StoreError::Close)
                } else {
                    before.failure
                }
            },
            Phase::Done => after == before,
        }
    }

    /// An upper bound on the replies the session still takes in.
    pub open spec fn remaining(&self) -> nat {
        match self.phase {
            Phase::Opening => self.edits@.len() + 2,
            Phase::Open => if self.failure is None && self.next < self.edits@.len() {
                (self.edits@.len() - self.next + 1) as nat
            } else {
                1
            },
            Phase::Done => 0,
        }
    }

    /// What the session came to, once it has ended: success, or the first
    /// failure.
    pub open spec fn result(&self) -> Option<Result<(), StoreError>> {
        match self.phase {
            Phase::Done => Some(
                match self.failure {
                    Some(e) => Err(e),
                    None => Ok(()),
                },
            ),
            _ => None,
        }
    }

    /// A session for a list of changes, before anything was asked.
    pub fn begin(edits: Vec<Edit>) -> (r: Self)
        ensures
            r.edits == edits,
            r.next == 0,
            r.phase == Phase::Opening,
            r.failure is None,
    {
        WriteSession { edits, next: 0, phase: Phase::Opening, failure: None }
    }

    /// What the session needs next; `None` once it has ended.
    pub fn pending(&self) -> (r: Option<Request>)
        ensures
            r == self.pending_request(),
    {
        match self.phase {
            Phase::Opening => Some(Request::Open(OpenMode::Update)),
            Phase::Open => if self.failure.is_none() && self.next < self.edits.len() {
                Some(Request::Apply(self.edits[self.next].copy()))
            } else {
                Some(Request::Close)
            },
            Phase::Done => None,
        }
    }

    /// Takes in the reply to what was pending. A session that has ended
    /// takes nothing in.
    pub fn supply(&mut self, reply: Reply)
        ensures
            Self::follows(*old(self), reply, *final(self)),
            old(self).phase != Phase::Done ==> final(self).remaining() < old(self).remaining(),
    {
        let failed = match reply {
            Reply::Failed => true,
            _ => false,
        };
        match self.phase {
            Phase::Opening => {
                if failed {
                    self.phase = Phase::Done;
                    self.failure = Some(StoreError::Open);
                } else {
                    self.phase = Phase::Open;
                }
            },
            Phase::Open => {
                if self.failure.is_none() && self.next < self.edits.len() {
                    if failed {
                        self.failure = Some(StoreError::Serialize);
                    } else {
                        self.next = self.next + 1;
                    }
                } else {
                    self.phase = Phase::Done;
                    if self.failure.is_none() && failed {
                        self.failure = Some(StoreError::Close);
                    }
                }
            },
            Phase::Done => {},
        }
    }

    /// What the session came to; `None` while it has not ended.
    pub fn outcome(&self) -> (r: Option<Result<(), StoreError>>)
        ensures
            r == self.result(),
    {
        match self.phase {
            Phase::Done => Some(
                match self.failure {
                    Some(e) => Err(e),
                    None => Ok(()),
                },
            ),
            _ => None,
        }
    }
}

/// Saves a whole record to its file: the tags in one write session, then
/// the date in another. Where the tags could not be written, the date is
/// not tried; the two writes are not undone together.
#[derive(Debug)]
pub struct SaveSession {
    /// Writes the tags.
    pub tags: WriteSession,
    /// Writes the date, once the tags are written.
    pub date: WriteSession,
    /// Why the date cannot be written, where it could not be put into
    /// words; the session for the date is not run then.
    pub unwritable: Option<StoreError>,
}

impl SaveSession {
    /// The tags are written and nothing failed, so that the date is next.
    pub open spec fn on_date(&self) -> bool {
        self.tags.phase == Phase::Done && self.tags.failure is None && self.unwritable is None
    }

    /// What the session needs next; `None` once it has ended.
    pub open spec fn pending_request(&self) -> Option<Request> {
        if self.tags.phase != Phase::Done {
            self.tags.pending_request()
        } else if self.on_date() {
            self.date.pending_request()
        } else {
            None
        }
    }

    /// How `after` follows from `before` when `reply` answers what `before`
    /// needed: the reply goes to the session that asked.
    pub open spec fn follows(before: Self, reply: Reply, after: Self) -> bool {
        &&& after.unwritable == before.unwritable
        &&& if before.tags.phase != Phase::Done {
            WriteSession::follows(before.tags, reply, after.tags) && after.date == before.date
        } else if before.on_date() {
            after.tags == before.tags && WriteSession::follows(before.date, reply, after.date)
        } else {
            after.tags == before.tags && after.date == before.date
        }
    }

    /// An upper bound on the replies the session still takes in.
    pub open spec fn remaining(&self) -> nat {
        if self.tags.phase != Phase::Done {
            self.tags.remaining() + self.date.remaining()
        } else if self.on_date() {
            self.date.remaining()
        } else {
            0
        }
    }

    /// What the session came to, once it has ended: the failure of the
    /// tags, else that of the date, else success.
    pub open spec fn result(&self) -> Option<Result<(), StoreError>> {
        if self.tags.phase != Phase::Done {
            None
        } else if self.tags.failure is Some {
            self.tags.result()
        } else {
            match self.unwritable {
                Some(e) => Some(Err(e)),
                None => self.date.result(),
            }
        }
    }

    /// A session that writes these tags and then makes these changes for
    /// the date, or reports why the date cannot be written.
    pub fn begin(tag_edits: Vec<Edit>, date_edits: Result<Vec<Edit>, StoreError>) -> (r: Self)
        ensures
            r.tags.edits == tag_edits,
            r.tags.next == 0 && r.tags.phase == Phase::Opening && r.tags.failure is None,
            r.date.next == 0 && r.date.phase == Phase::Opening && r.date.failure is None,
            match date_edits {
                Ok(edits) => r.date.edits == edits && r.unwritable is None,
                Err(e) => r.date.edits@.len() == 0 && r.unwritable == Some(e),
            },
    {
        let tags = WriteSession::begin(tag_edits);
        match date_edits {
            Ok(edits) => SaveSession { tags, date: WriteSession::begin(edits), unwritable: None },
            Err(e) => SaveSession {
                tags,
                date: WriteSession::begin(Vec::new()),
                unwritable: Some(e),
            },
        }
    }

    /// What the session needs next; `None` once it has ended.
    pub fn pending(&self) -> (r: Option<Request>)
        ensures
            r == self.pending_request(),
    {
        match self.tags.outcome() {
            None => self.tags.pending(),
            Some(Ok(_)) => if self.unwritable.is_none() {
                self.date.pending()
            } else {
                None
            },
            Some(Err(_)) => None,
        }
    }

    /// Takes in the reply to what was pending. A session that has ended
    /// takes nothing in.
    pub fn supply(&mut self, reply: Reply)
        ensures
            Self::follows(*old(self), reply, *final(self)),
            old(self).pending_request() is Some ==> final(self).remaining() < old(self).remaining(),
    {
        match self.tags.outcome() {
            None => self.tags.supply(reply),
            Some(Ok(_)) => if self.unwritable.is_none() {
                self.date.supply(reply)
            },
            Some(Err(_)) => {},
        }
    }

    /// What the session came to; `None` while it has not ended.
    pub fn outcome(&self) -> (r: Option<Result<(), StoreError>>)
        ensures
            r == self.result(),
    {
        match self.tags.outcome() {
            None => None,
            Some(Err(e)) => Some(Err(e)),
            Some(Ok(_)) => match self.unwritable {
                Some(e) => Some(Err(e)),
                None => self.date.outcome(),
            },
        }
    }
}

/// A read session holds the container open only between a successful open
/// and its one close: it comes to hold it by a reply that the open
/// succeeded, and lets go of it only when a close was pending. A session
/// that was refused the container never held it.
pub proof fn lemma_read_session_closes_once(before: ReadSession, reply: Reply, after: ReadSession)
    requires
        ReadSession::follows(before, reply, after),
    ensures
        before.phase != Phase::Open && after.phase == Phase::Open ==> before.pending_request()
            == Some(Request::Open(OpenMode::ReadMetadataOnly)) && reply.succeeded(),
        before.phase == Phase::Open && after.phase != Phase::Open ==> before.pending_request()
            == Some(Request::Close) && after.phase == Phase::Done,
        before.phase == Phase::Opening && after.phase == Phase::Done ==> after.refused,
        before.phase == Phase::Done ==> after.phase == Phase::Done,
        before.phase == Phase::Open ==> before.pending_request() != Some(
            Request::Open(OpenMode::ReadMetadataOnly),
        ),
{
}

/// A write session holds the container open only between a successful open
/// and its one close, whatever fails in between: after a change that
/// failed, the close is still asked for.
pub proof fn lemma_write_session_closes_once(
    before: WriteSession,
    reply: Reply,
    after: WriteSession,
)
    requires
        WriteSession::follows(before, reply, after),
    ensures
        before.phase != Phase::Open && after.phase == Phase::Open ==> before.pending_request()
            == Some(Request::Open(OpenMode::Update)) && reply.succeeded(),
        before.phase == Phase::Open && after.phase != Phase::Open ==> before.pending_request()
            == Some(Request::Close) && after.phase == Phase::Done,
        before.phase == Phase::Opening && after.phase == Phase::Done ==> after.failure == Some(
            StoreError::Open,
        ),
        before.phase == Phase::Done ==> after.phase == Phase::Done,
        before.phase == Phase::Open && before.failure is Some ==> before.pending_request() == Some(
            Request::Close,
        ),
{
}

/// A failure, once met, is what a write session comes to: no later reply
/// changes it.
pub proof fn lemma_write_session_keeps_first_failure(
    before: WriteSession,
    reply: Reply,
    after: WriteSession,
)
    requires
        WriteSession::follows(before, reply, after),
        before.failure is Some,
        before.phase != Phase::Opening,
    ensures
        after.failure == before.failure,
        after.next == before.next,
{
}

/// In a save session the date waits for the tags: nothing is asked for the
/// date while the tags are being written, and nothing at all once the tags
/// have failed, which is then what the session came to.
pub proof fn lemma_save_session_stops_at_first_failure(session: SaveSession)
    ensures
        session.tags.phase != Phase::Done ==> session.pending_request()
            == session.tags.pending_request() && session.result() is None,
        session.tags.phase == Phase::Done && session.tags.failure is Some ==> {
            &&& session.pending_request() is None
            &&& session.result() == Some(Err::<(), StoreError>(session.tags.failure->Some_0))
        },
        session.tags.phase == Phase::Done && session.tags.failure is None && session.unwritable
            is Some ==> {
            &&& session.pending_request() is None
            &&& session.result() == Some(Err::<(), StoreError>(session.unwritable->Some_0))
        },
{
}

} // verus!
