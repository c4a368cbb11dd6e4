//! Records read from and written to a container in memory.
//!
//! Each operation runs the session for it against a `MemoryStore`, and says
//! what the record or the container is afterwards. A container of a file on
//! disk is served by the same sessions, by whoever holds it.

use crate::dates::resolved;
use crate::file::{date_edits_of, tag_edits_of, File};
use crate::session::{Phase, ReadSession, SaveSession, WriteSession};
use crate::store::{
    priority, Content, Edit, MemoryStore, OpenMode, Reply, Request, StoreError, DATE_FIELDS,
    LAST_INDEX,
};
use crate::text::text_of;
use vstd::prelude::*;

verus! {

/// What comes of making a number of changes to a container in memory: the
/// first failure among opening for update, the changes, and closing.
pub open spec fn write_result(store: MemoryStore, changes: nat) -> Result<(), StoreError> {
    if !store.opens_for(OpenMode::Update) {
        Err(StoreError::Open)
    } else if changes > 0 && !store.accepts {
        Err(StoreError::Serialize)
    } else if !store.closes {
        Err(StoreError::Close)
    } else {
        Ok(())
    }
}

/// What a container in memory holds after a list of changes was made to
/// it: all of them where it opens and accepts changes, none otherwise.
pub open spec fn written_content(store: MemoryStore, edits: Seq<Edit>) -> Content {
    if store.takes_changes() {
        store.content().edited_all(edits)
    } else {
        store.content()
    }
}

/// How a write session and the container in memory that it is run against
/// stand to each other, where `before` is the container as the session
/// found it. Before the open nothing has changed. While the container is
/// open, the changes made so far are in it; after a change that failed,
/// which is the first where the container takes none, it holds what it held.
/// At the end the container is closed and holds `written_content`, and the
/// session has come to `write_result`.
pub open spec fn in_step(session: WriteSession, before: MemoryStore, store: MemoryStore) -> bool {
    let all = session.edits@;
    &&& store.same_switches(&before)
    &&& session.next <= all.len()
    &&& match session.phase {
        Phase::Opening => {
            &&& store.content() == before.content()
            &&& store.open == before.open
            &&& session.next == 0
            &&& session.failure is None
        },
        Phase::Open => {
            &&& before.opens_for(OpenMode::Update)
            &&& store.open == Some(OpenMode::Update)
            &&& match session.failure {
                None => {
                    &&& session.next > 0 ==> before.accepts
                    &&& store.content() == before.content().edited_all(
                        all.take(session.next as int),
                    )
                },
                Some(e) => {
                    &&& e == StoreError::Serialize
                    &&& !before.accepts
                    &&& all.len() > 0
                    &&& store.content() == before.content()
                },
            }
        },
        Phase::Done => {
            &&& session.result() == Some(write_result(before, all.len()))
            &&& store.content() == written_content(before, all)
            &&& store.open == before.released(OpenMode::Update)
        },
    }
}

/// One request of a write session, carried out by the container in memory,
/// keeps the two in step.
pub proof fn lemma_write_step(
    before: MemoryStore,
    store: MemoryStore,
    session: WriteSession,
    request: Request,
    reply: Reply,
    next_store: MemoryStore,
    next_session: WriteSession,
)
    requires
        in_step(session, before, store),
        session.pending_request() == Some(request),
        MemoryStore::serves(store, request, reply, next_store),
        WriteSession::follows(session, reply, next_session),
    ensures
        in_step(next_session, before, next_store),
{
    let all = session.edits@;
    if session.phase == Phase::Open {
        if session.wants_edit() {
            let next = session.next as int;
            assert(all.take(next + 1).drop_last() =~= all.take(next));
            assert(all.take(next + 1).last() == all[next]);
        } else {
            assert(all.take(all.len() as int) =~= all);
        }
    }
}

/// Makes a list of changes to a container in memory, through a write
/// session. The container is closed again where it was opened.
pub fn write_through(store: &mut MemoryStore, edits: Vec<Edit>) -> (r: Result<(), StoreError>)
    ensures
        r == write_result(*old(store), edits@.len()),
        final(store).content() == written_content(*old(store), edits@),
        final(store).same_switches(old(store)),
        final(store).open == old(store).released(OpenMode::Update),
{
    let ghost before = *store;
    let ghost all = edits@;
    let mut session = WriteSession::begin(edits);
    let mut request = session.pending();
    while request.is_some()
        invariant
            session.edits@ == all,
            request == session.pending_request(),
            in_step(session, before, *store),
        decreases session.remaining(),
    {
        let ghost earlier = session;
        let ghost held = *store;
        match &request {
            Some(asked) => {
                let reply = store.serve(asked);
                session.supply(reply);
                proof {
                    lemma_write_step(before, held, earlier, *asked, reply, *store, session);
                }
            },
            None => {},
        }
        request = session.pending();
    }
    match session.outcome() {
        Some(result) => result,
        None => Err(StoreError::Open),
    }
}

/// The items that a scan of the subject array finds: all of them, up to
/// the largest index that can be asked for.
pub open spec fn scanned_items(subject: Seq<String>) -> Seq<String> {
    if subject.len() <= LAST_INDEX {
        subject
    } else {
        subject.take(LAST_INDEX as int)
    }
}

/// The texts of the three date fields, in priority order.
pub open spec fn date_texts(content: Content) -> Seq<Option<Seq<char>>> {
    seq![text_of(content.core), text_of(content.imaging), text_of(content.descriptive)]
}

/// Replacing the subject array by a list of tags leaves exactly these tags
/// in it, in order, and the date fields as they were.
pub proof fn lemma_tag_edits_replace_subject(content: Content, tags: Seq<String>)
    ensures
        content.edited_all(tag_edits_of(tags)) == (Content { subject: tags, ..content }),
    decreases tags.len(),
{
    let edits = tag_edits_of(tags);
    if tags.len() == 0 {
        assert(edits.drop_last() =~= Seq::<Edit>::empty());
        assert(content.edited_all(edits.drop_last()) == content);
        assert(content.edited_all(edits) == content.edited(Edit::ClearSubject));
        assert(tags =~= Seq::<String>::empty());
    } else {
        let shorter = tags.drop_last();
        lemma_tag_edits_replace_subject(content, shorter);
        assert(edits.drop_last() =~= tag_edits_of(shorter));
        assert(edits.last() == Edit::AppendSubject(tags.last()));
        assert(shorter.push(tags.last()) =~= tags);
    }
}

/// Setting all three date fields to a text leaves that text in each of
/// them, and the subject array as it was.
pub proof fn lemma_date_edits_set_all(content: Content, text: String)
    ensures
        content.edited_all(date_edits_of(text)) == (Content {
            core: Some(text),
            imaging: Some(text),
            descriptive: Some(text),
            subject: content.subject,
        }),
{
    let edits = date_edits_of(text);
    let two = edits.drop_last();
    let one = two.drop_last();
    assert(one.drop_last() =~= Seq::<Edit>::empty());
    assert(content.edited_all(one.drop_last()) == content);
    assert(content.edited_all(one) == content.edited(edits[0]));
    assert(content.edited_all(two) == content.edited(edits[0]).edited(edits[1]));
}

/// What a container in memory holds once a list of tags was written to it:
/// the tags in place of its subject array where it takes changes, else what
/// it held.
pub open spec fn tags_written(store: MemoryStore, tags: Seq<String>) -> Content {
    if store.takes_changes() {
        Content { subject: tags, ..store.content() }
    } else {
        store.content()
    }
}

/// Tags written to a container that takes changes are read back from it as
/// they were written, the same tags in the same order, as far as a scan
/// reaches; the date fields are as they were before the write.
pub proof fn lemma_tags_round_trip(store: MemoryStore, tags: Seq<String>)
    requires
        store.takes_changes(),
        tags.len() <= LAST_INDEX,
    ensures
        scanned_items(tags_written(store, tags).subject) == tags,
        date_texts(tags_written(store, tags)) == date_texts(store.content()),
        tags_written(store, tags) == written_content(store, tag_edits_of(tags)),
{
    lemma_tag_edits_replace_subject(store.content(), tags);
}

/// A scan finds the items of the subject array in the order of their
/// indices, from the first on, and nothing else.
pub proof fn lemma_scan_is_prefix(subject: Seq<String>)
    ensures
        scanned_items(subject).len() <= subject.len(),
        scanned_items(subject).len() <= LAST_INDEX,
        forall|k: int|
            0 <= k < scanned_items(subject).len() ==> #[trigger] scanned_items(subject)[k]
                == subject[k],
        subject.len() <= LAST_INDEX ==> scanned_items(subject) == subject,
{
}

impl File {
    /// Reads the record of the file at `path` from a container in memory.
    ///
    /// The date is resolved from the three date fields in priority order;
    /// the tags are the items of the subject array in order. A field that is
    /// not there is no error. Only a container that does not open gives an
    /// error, `Open`. The container holds afterwards what it held before,
    /// and is closed again where it was opened.
    pub fn read(path: String, store: &mut MemoryStore) -> (r: Result<File, StoreError>)
        ensures
            final(store).content() == old(store).content(),
            final(store).same_switches(old(store)),
            final(store).open == old(store).released(OpenMode::ReadMetadataOnly),
            r is Ok <==> old(store).opens_for(OpenMode::ReadMetadataOnly),
            r is Err ==> r == Err::<File, StoreError>(StoreError::Open),
            r is Ok ==> {
                &&& r->Ok_0.path == path
                &&& r->Ok_0.date == resolved(date_texts(old(store).content()))
                &&& r->Ok_0.tags@ == scanned_items(old(store).subject@)
            },
    {
        let ghost before = *store;
        let ghost held = before.content();
        let mut session = ReadSession::begin(path);
        let mut request = session.pending();
        while request.is_some()
            invariant
                session.path == path,
                store.content() == held,
                held == before.content(),
                store.same_switches(&before),
                request == session.pending_request(),
                match session.phase {
                    Phase::Opening => {
                        &&& store.open == before.open
                        &&& session.candidates@.len() == 0
                        &&& session.tags@.len() == 0
                        &&& !session.scanned
                        &&& !session.refused
                    },
                    Phase::Open => {
                        &&& before.opens_for(OpenMode::ReadMetadataOnly)
                        &&& store.open == Some(OpenMode::ReadMetadataOnly)
                        &&& !session.refused
                        &&& session.candidates@.len() <= priority().len()
                        &&& forall|k: int|
                            0 <= k < session.candidates@.len() ==> #[trigger] session.candidates@[k]
                                == held.date(priority()[k])
                        &&& session.tags@.len() <= held.subject.len()
                        &&& session.tags@.len() <= LAST_INDEX
                        &&& session.tags@ == held.subject.take(session.tags@.len() as int)
                        &&& session.scanned ==> session.tags@.len() == held.subject.len()
                    },
                    Phase::Done => if session.refused {
                        &&& !before.opens_for(OpenMode::ReadMetadataOnly)
                        &&& store.open == before.open
                    } else {
                        &&& before.opens_for(OpenMode::ReadMetadataOnly)
                        &&& store.open is None
                        &&& session.candidates@.len() == priority().len()
                        &&& forall|k: int|
                            0 <= k < session.candidates@.len() ==> #[trigger] session.candidates@[k]
                                == held.date(priority()[k])
                        &&& session.tags@ == scanned_items(held.subject)
                    },
                },
            decreases session.remaining(),
        {
            let ghost earlier = session;
            match &request {
                Some(asked) => {
                    let reply = store.serve(asked);
                    session.supply(reply);
                    proof {
                        if earlier.phase == Phase::Open && earlier.wants_item() {
                            let count = earlier.tags@.len() as int;
                            if count < held.subject.len() {
                                assert(held.subject.take(count + 1) =~= held.subject.take(
                                    count,
                                ).push(held.subject[count]));
                            }
                        }
                        if earlier.phase == Phase::Open && !earlier.wants_date()
                            && !earlier.wants_item() {
                            let count = earlier.tags@.len() as int;
                            if count == held.subject.len() {
                                assert(held.subject.take(count) =~= held.subject);
                            }
                        }
                    }
                },
                None => {},
            }
            request = session.pending();
        }
        proof {
            if !session.refused {
                assert(crate::dates::candidate_texts(session.candidates@) =~= date_texts(held));
            }
        }
        match session.finish() {
            Some(result) => result,
            None => Err(StoreError::Open),
        }
    }

    /// Writes the tags of the record into a container in memory, in place
    /// of the subject array it held. The date fields are left alone.
    ///
    /// Fails with `Open` where the container does not open for update, with
    /// `Serialize` where it takes no changes, with `Close` where it does not
    /// close; only in the last case has the subject array been replaced.
    pub fn write_tags(&self, store: &mut MemoryStore) -> (r: Result<(), StoreError>)
        ensures
            r == write_result(*old(store), self.tags@.len() + 1),
            final(store).content() == tags_written(*old(store), self.tags@),
            final(store).same_switches(old(store)),
            final(store).open == old(store).released(OpenMode::Update),
    {
        proof {
            lemma_tag_edits_replace_subject(store.content(), self.tags@);
        }
        write_through(store, self.tag_edits())
    }

    /// Writes the date of the record into all three date fields of a
    /// container in memory. The subject array is left alone, and so are the
    /// date fields where the record has no date.
    ///
    /// A date that cannot be put into words gives `Serialize`, and the
    /// container is not opened. Otherwise the container is opened for
    /// update, also where there is nothing to write, and the failures are
    /// those of `write_tags`.
    pub fn write_created_date(&self, store: &mut MemoryStore) -> (r: Result<(), StoreError>)
        ensures
            final(store).same_switches(old(store)),
            final(store).content().subject == old(store).content().subject,
            match self.date {
                None => {
                    &&& r == write_result(*old(store), 0)
                    &&& final(store).content() == old(store).content()
                    &&& final(store).open == old(store).released(OpenMode::Update)
                },
                Some(date) => match date.text() {
                    None => {
                        &&& r == Err::<(), StoreError>(StoreError::Serialize)
                        &&& final(store).content() == old(store).content()
                        &&& final(store).open == old(store).open
                    },
                    Some(text) => {
                        &&& r == write_result(*old(store), DATE_FIELDS as nat)
                        &&& final(store).open == old(store).released(OpenMode::Update)
                        &&& if old(store).takes_changes() {
                            date_texts(final(store).content()) == seq![
                                Some(text),
                                Some(text),
                                Some(text),
                            ]
                        } else {
                            final(store).content() == old(store).content()
                        }
                    },
                },
            },
    {
        match self.date_edits() {
            Err(e) => Err(e),
            Ok(edits) => {
                proof {
                    if self.date is Some {
                        let written = choose|written: String|
                            #![auto]
                            written@ == self.date->Some_0.text()->Some_0 && edits@
                                == date_edits_of(written);
                        lemma_date_edits_set_all(store.content(), written);
                    } else {
                        assert(edits@ =~= Seq::<Edit>::empty());
                    }
                }
                write_through(store, edits)
            },
        }
    }

    /// Writes the tags, then the date. Where writing the tags fails, the
    /// date is not written and the failure is handed on. The two writes are
    /// not undone together: after a failure the container may hold the new
    /// tags and the old date.
    pub fn write_all(&self, store: &mut MemoryStore) -> (r: Result<(), StoreError>)
        ensures
            final(store).same_switches(old(store)),
            final(store).open == old(store).released(OpenMode::Update),
            final(store).content().subject == tags_written(*old(store), self.tags@).subject,
            match write_result(*old(store), self.tags@.len() + 1) {
                Err(e) => {
                    &&& r == Err::<(), StoreError>(e)
                    &&& date_texts(final(store).content()) == date_texts(old(store).content())
                },
                Ok(_) => match self.date {
                    None => {
                        &&& r is Ok
                        &&& date_texts(final(store).content()) == date_texts(
                            old(store).content(),
                        )
                    },
                    Some(date) => match date.text() {
                        None => {
                            &&& r == Err::<(), StoreError>(StoreError::Serialize)
                            &&& date_texts(final(store).content()) == date_texts(
                                old(store).content(),
                            )
                        },
                        Some(text) => {
                            &&& r is Ok
                            &&& date_texts(final(store).content()) == seq![
                                Some(text),
                                Some(text),
                                Some(text),
                            ]
                        },
                    },
                },
            },
    {
        let ghost before = *store;
        let ghost tag_edits = tag_edits_of(self.tags@);
        let dated = self.date_edits();
        let ghost date_edits = if dated is Ok {
            dated->Ok_0@
        } else {
            Seq::<Edit>::empty()
        };
        let mut session = SaveSession::begin(self.tag_edits(), dated);
        let ghost mut mid = *store;
        let mut request = session.pending();
        while request.is_some()
            invariant
                session.tags.edits@ == tag_edits,
                session.date.edits@ == date_edits,
                session.unwritable == match dated {
                    Ok(_) => None,
                    Err(e) => Some(e),
                },
                request == session.pending_request(),
                in_step(
                    session.tags,
                    before,
                    if session.tags.phase != Phase::Done {
                        *store
                    } else {
                        mid
                    },
                ),
                session.tags.phase != Phase::Done ==> {
                    &&& session.date.phase == Phase::Opening
                    &&& session.date.next == 0
                    &&& session.date.failure is None
                },
                session.tags.phase == Phase::Done ==> if session.on_date() {
                    in_step(session.date, mid, *store)
                } else {
                    *store == mid
                },
            decreases session.remaining(),
        {
            let ghost earlier = session;
            let ghost held = *store;
            match &request {
                Some(asked) => {
                    let reply = store.serve(asked);
                    session.supply(reply);
                    proof {
                        if earlier.tags.phase != Phase::Done {
                            lemma_write_step(
                                before,
                                held,
                                earlier.tags,
                                *asked,
                                reply,
                                *store,
                                session.tags,
                            );
                            if session.tags.phase == Phase::Done {
                                mid = *store;
                            }
                        } else {
                            lemma_write_step(
                                mid,
                                held,
                                earlier.date,
                                *asked,
                                reply,
                                *store,
                                session.date,
                            );
                        }
                    }
                },
                None => {},
            }
            request = session.pending();
        }
        proof {
            lemma_tag_edits_replace_subject(before.content(), self.tags@);
            assert(tag_edits.len() == self.tags@.len() + 1);
            assert(session.tags.phase == Phase::Done);
            assert(mid.content() == tags_written(before, self.tags@));
            if session.on_date() {
                assert(session.date.phase == Phase::Done);
                assert(mid.opens_for(OpenMode::Update) && mid.accepts && mid.closes);
                if self.date is Some {
                    let written = choose|written: String|
                        #![auto]
                        written@ == self.date->Some_0.text()->Some_0 && date_edits
                            == date_edits_of(written);
                    lemma_date_edits_set_all(mid.content(), written);
                } else {
                    assert(date_edits =~= Seq::<Edit>::empty());
                }
            }
        }
        match session.outcome() {
            Some(result) => result,
            None => Err(StoreError::Open),
        }
    }
}

} // verus!
