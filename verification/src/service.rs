//! The request-handling business rules: id assignment, timestamping,
//! partial-update merging and the archive guard, atop a swappable store.
//! The archive guard itself lives in the store contract, so every backend
//! enforces it exactly once; the handler delegates and propagates it.

use vstd::prelude::*;

use crate::ids::new_uuid_v4;
use crate::storage::traits::{archived_note, merged_note, NoteStore};
use crate::timefmt::{dec_str_int, encode_time, now_epoch_seconds, time_value,
    lemma_time_value_monotone, lemma_time_value_round_trip};
use crate::types::{
    ArchiveNoteRequest, ArchiveNoteResponse, CreateNoteRequest, CreateNoteResponse,
    GetNoteRequest, GetNoteResponse, GetNotesRequest, GetNotesResponse, Note, NoteV, TagV,
    UpdateNoteRequest, UpdateNoteResponse, tags_view,
};
use crate::NoteError;

verus! {

/// The note value the service stores for a create request handled with the
/// given fresh id at the given time: both timestamps equal, not archived,
/// and an empty tag set when the request omits tags.
pub open spec fn created_note(request: &CreateNoteRequest, id: u128, now: int) -> NoteV {
    NoteV {
        uuid: id,
        title: request.title@,
        owner: request.owner@,
        description: request.description@,
        tags: match request.tags {
            Some(ts) => tags_view(ts@).to_set(),
            None => Set::<TagV>::empty(),
        },
        create_time: dec_str_int(now),
        last_update_time: dec_str_int(now),
        delete_time: None,
    }
}

/// Builds the note a create request describes, under the given fresh id and
/// time: both timestamps stamped with `now`, tags defaulted to empty, not
/// archived. This is the whole compute step of note creation; persisting the
/// result is the store's part.
pub fn build_create_note(request: CreateNoteRequest, id: u128, now: i64) -> (note: Note)
    requires
        request.tags matches Some(ts) ==> tags_view(ts@).no_duplicates(),
    ensures
        note@ == created_note(&request, id, now as int),
        note.wf(),
{
    let CreateNoteRequest { title, description, tags, owner } = request;
    let tags = match tags {
        Some(ts) => ts,
        None => Vec::new(),
    };
    let time = encode_time(now);
    let note = Note {
        uuid: id,
        title,
        owner,
        description,
        tags,
        create_time: time.clone(),
        last_update_time: time,
        delete_time: None,
    };
    proof {
        assert(note@ =~= created_note(&request, id, now as int));
    }
    note
}

/// Handles requests against a storage backend chosen at construction.
pub struct RequestHandler<S> {
    pub storage: S,
}

impl<S: NoteStore> RequestHandler<S> {
    pub fn new(storage: S) -> (r: RequestHandler<S>)
        ensures
            r.storage == storage,
    {
        RequestHandler { storage }
    }

    /// Creates the note a request describes under the given id and time:
    /// deterministic core of [`Self::create_note`].
    pub fn create_note_with(&mut self, request: CreateNoteRequest, id: u128, now: i64) -> (r:
        Result<CreateNoteResponse, NoteError>)
        requires
            old(self).storage.inv(),
            request.tags matches Some(ts) ==> tags_view(ts@).no_duplicates(),
        ensures
            final(self).storage.inv(),
            final(self).storage.lists() == old(self).storage.lists(),
            match r {
                Ok(resp) => resp.note_id == id && !old(self).storage.notes().contains_key(id)
                    && final(self).storage.notes() == old(self).storage.notes().insert(
                    id,
                    created_note(&request, id, now as int),
                ),
                Err(e) => e == NoteError::Conflict && old(self).storage.notes().contains_key(id)
                    && final(self).storage.notes() == old(self).storage.notes(),
            },
    {
        let note = build_create_note(request, id, now);
        match self.storage.create_note(note) {
            Ok(_) => Ok(CreateNoteResponse { note_id: id }),
            Err(e) => Err(e),
        }
    }

    /// Creates a note from the request: assigns a fresh random id, stamps
    /// both timestamps with the current time, defaults tags to the empty
    /// set, and persists. The one failure is the drawn id colliding with a
    /// stored note, which propagates as `Conflict`; on a store holding no
    /// notes the call therefore always succeeds.
    pub fn create_note(&mut self, request: CreateNoteRequest) -> (r: Result<
        CreateNoteResponse,
        NoteError,
    >)
        requires
            old(self).storage.inv(),
            request.tags matches Some(ts) ==> tags_view(ts@).no_duplicates(),
        ensures
            final(self).storage.inv(),
            final(self).storage.lists() == old(self).storage.lists(),
            match r {
                Ok(resp) => !old(self).storage.notes().contains_key(resp.note_id) && exists|
                    t: int,
                |
                    final(self).storage.notes() == old(self).storage.notes().insert(
                        resp.note_id,
                        #[trigger] created_note(&request, resp.note_id, t),
                    ),
                Err(e) => e == NoteError::Conflict && final(self).storage.notes() == old(self).storage.notes()
                    && exists|k: u128| old(self).storage.notes().contains_key(k),
            },
    {
        let id = new_uuid_v4();
        let now = now_epoch_seconds();
        match self.create_note_with(request, id, now) {
            Ok(resp) => {
                proof {
                    assert(final(self).storage.notes() == old(self).storage.notes().insert(
                        resp.note_id,
                        created_note(&request, resp.note_id, now as int),
                    ));
                }
                Ok(resp)
            },
            Err(e) => {
                proof {
                    assert(old(self).storage.notes().contains_key(id));
                }
                Err(e)
            },
        }
    }

    /// Fetches one note by id, unchanged from the store.
    pub fn get_note(&self, request: GetNoteRequest) -> (r: Result<GetNoteResponse, NoteError>)
        requires
            self.storage.inv(),
        ensures
            match r {
                Ok(resp) => self.storage.notes().contains_key(request.note_id) && resp.note@
                    == self.storage.notes()[request.note_id] && resp.note.wf(),
                Err(e) => e == NoteError::NotFound && !self.storage.notes().contains_key(
                    request.note_id,
                ),
            },
    {
        match self.storage.get_note(request.note_id) {
            Ok(note) => Ok(GetNoteResponse { note }),
            Err(e) => Err(e),
        }
    }

    /// Fetches every note of an owner, archived ones included; an empty
    /// mapping — not an error — when the owner has none.
    pub fn get_notes(&self, request: GetNotesRequest) -> (r: Result<GetNotesResponse, NoteError>)
        requires
            self.storage.inv(),
        ensures
            match r {
                Ok(resp) => (forall|id: u128|
                    #[trigger] resp.notes@.contains_key(id) <==> (self.storage.notes().contains_key(
                        id,
                    ) && self.storage.notes()[id].owner == request.owner@)) && (forall|id: u128|
                    resp.notes@.contains_key(id) ==> (#[trigger] resp.notes@[id])@
                        == self.storage.notes()[id]),
                Err(_) => false,
            },
    {
        match self.storage.get_notes(request.owner) {
            Ok(notes) => Ok(GetNotesResponse { notes }),
            Err(e) => Err(e),
        }
    }

    /// Applies a partial update at the given time: deterministic core of
    /// [`Self::update_note`].
    pub fn update_note_at(&mut self, request: UpdateNoteRequest, now: i64) -> (r: Result<
        UpdateNoteResponse,
        NoteError,
    >)
        requires
            old(self).storage.inv(),
            request.tags matches Some(ts) ==> tags_view(ts@).no_duplicates(),
        ensures
            final(self).storage.inv(),
            final(self).storage.lists() == old(self).storage.lists(),
            match r {
                Ok(_) => old(self).storage.notes().contains_key(request.note_id) && final(self).storage.notes() == old(self).storage.notes().insert(
                    request.note_id,
                    merged_note(
                        old(self).storage.notes()[request.note_id],
                        &request,
                        now as int,
                    ),
                ),
                Err(e) => e == NoteError::NotFound && !old(self).storage.notes().contains_key(
                    request.note_id,
                ) && final(self).storage.notes() == old(self).storage.notes(),
            },
    {
        match self.storage.update_note(request, now) {
            Ok(_) => Ok(UpdateNoteResponse {}),
            Err(e) => Err(e),
        }
    }

    /// Merges the present fields of the request into the stored note and
    /// refreshes its update time with the current clock; fields absent from
    /// the request are untouched. Fails with `NotFound` when the id is
    /// absent.
    pub fn update_note(&mut self, request: UpdateNoteRequest) -> (r: Result<
        UpdateNoteResponse,
        NoteError,
    >)
        requires
            old(self).storage.inv(),
            request.tags matches Some(ts) ==> tags_view(ts@).no_duplicates(),
        ensures
            final(self).storage.inv(),
            final(self).storage.lists() == old(self).storage.lists(),
            match r {
                Ok(_) => old(self).storage.notes().contains_key(request.note_id) && exists|t: int|
                    final(self).storage.notes() == old(self).storage.notes().insert(
                        request.note_id,
                        #[trigger] merged_note(
                            old(self).storage.notes()[request.note_id],
                            &request,
                            t,
                        ),
                    ),
                Err(e) => e == NoteError::NotFound && !old(self).storage.notes().contains_key(
                    request.note_id,
                ) && final(self).storage.notes() == old(self).storage.notes(),
            },
    {
        let now = now_epoch_seconds();
        match self.update_note_at(request, now) {
            Ok(resp) => {
                proof {
                    assert(final(self).storage.notes() == old(self).storage.notes().insert(
                        request.note_id,
                        merged_note(
                            old(self).storage.notes()[request.note_id],
                            &request,
                            now as int,
                        ),
                    ));
                }
                Ok(resp)
            },
            Err(e) => Err(e),
        }
    }

    /// Archives a note at the given time: deterministic core of
    /// [`Self::archive_note`].
    pub fn archive_note_at(&mut self, request: ArchiveNoteRequest, now: i64) -> (r: Result<
        ArchiveNoteResponse,
        NoteError,
    >)
        requires
            old(self).storage.inv(),
        ensures
            final(self).storage.inv(),
            final(self).storage.lists() == old(self).storage.lists(),
            match r {
                Ok(_) => old(self).storage.notes().contains_key(request.note_id) && old(self).storage.notes()[request.note_id].delete_time is None && final(self).storage.notes()
                    == old(self).storage.notes().insert(
                    request.note_id,
                    archived_note(old(self).storage.notes()[request.note_id], now as int),
                ),
                Err(e) => final(self).storage.notes() == old(self).storage.notes() && ((e
                    == NoteError::NotFound && !old(self).storage.notes().contains_key(
                    request.note_id,
                )) || (e == NoteError::AlreadyArchived && old(self).storage.notes().contains_key(
                    request.note_id,
                ) && old(self).storage.notes()[request.note_id].delete_time is Some)),
            },
    {
        match self.storage.archive_note(request, now) {
            Ok(_) => Ok(ArchiveNoteResponse {}),
            Err(e) => Err(e),
        }
    }

    /// Archives a note at the current time: sets its archive time, which is
    /// terminal. Fails with `NotFound` when the id is absent and with
    /// `AlreadyArchived` when the archive time is already set.
    pub fn archive_note(&mut self, request: ArchiveNoteRequest) -> (r: Result<
        ArchiveNoteResponse,
        NoteError,
    >)
        requires
            old(self).storage.inv(),
        ensures
            final(self).storage.inv(),
            final(self).storage.lists() == old(self).storage.lists(),
            match r {
                Ok(_) => old(self).storage.notes().contains_key(request.note_id) && old(self).storage.notes()[request.note_id].delete_time is None && exists|t: int|
                    final(self).storage.notes() == old(self).storage.notes().insert(
                        request.note_id,
                        #[trigger] archived_note(
                            old(self).storage.notes()[request.note_id],
                            t,
                        ),
                    ),
                Err(e) => final(self).storage.notes() == old(self).storage.notes() && ((e
                    == NoteError::NotFound && !old(self).storage.notes().contains_key(
                    request.note_id,
                )) || (e == NoteError::AlreadyArchived && old(self).storage.notes().contains_key(
                    request.note_id,
                ) && old(self).storage.notes()[request.note_id].delete_time is Some)),
            },
    {
        let now = now_epoch_seconds();
        match self.archive_note_at(request, now) {
            Ok(resp) => {
                proof {
                    assert(final(self).storage.notes() == old(self).storage.notes().insert(
                        request.note_id,
                        archived_note(
                            old(self).storage.notes()[request.note_id],
                            now as int,
                        ),
                    ));
                }
                Ok(resp)
            },
            Err(e) => Err(e),
        }
    }
}

/// Law: a note created under a fresh id is immediately visible under that id
/// with the requested title, owner and description, equal creation and
/// update timestamps, no archive time, and an id distinct from every note
/// the store already held.
pub proof fn lemma_create_note_visible(
    m0: Map<u128, NoteV>,
    request: CreateNoteRequest,
    id: u128,
    now: int,
)
    requires
        !m0.contains_key(id),
    ensures
        ({
            let m1 = m0.insert(id, created_note(&request, id, now));
            &&& m1.contains_key(id)
            &&& m1[id].title == request.title@
            &&& m1[id].owner == request.owner@
            &&& m1[id].description == request.description@
            &&& m1[id].create_time == m1[id].last_update_time
            &&& m1[id].delete_time is None
            &&& forall|other: u128| m0.contains_key(other) ==> id != other
        }),
{
}

/// Law: a taken id stays taken. Every mutating contract either keeps the
/// note map or inserts into it — nothing hard-deletes — so an id handed out
/// by a successful create remains present for the store's lifetime, and the
/// create contract can never hand the same id out again.
pub proof fn lemma_note_ids_persist(m: Map<u128, NoteV>, id: u128, k: u128, v: NoteV)
    requires
        m.contains_key(id),
    ensures
        m.insert(k, v).contains_key(id),
{
}

/// Law: a partial update changes exactly the fields named in the request.
/// Every omitted optional field, and the identity, owner and lifecycle
/// fields, keep their previous values; only the update time is refreshed.
pub proof fn lemma_update_preserves_omitted(n: NoteV, request: UpdateNoteRequest, now: int)
    ensures
        ({
            let n2 = merged_note(n, &request, now);
            &&& request.title is None ==> n2.title == n.title
            &&& request.description is None ==> n2.description == n.description
            &&& request.tags is None ==> n2.tags == n.tags
            &&& n2.uuid == n.uuid
            &&& n2.owner == n.owner
            &&& n2.create_time == n.create_time
            &&& n2.delete_time == n.delete_time
            &&& n2.last_update_time == dec_str_int(now)
        }),
{
}

/// Law: across two updates handled at nondecreasing clock readings, the
/// stored update time never decreases in the value it denotes. (When the
/// wall clock itself jumps backwards between the calls, the precondition
/// does not hold and nothing is claimed.)
pub proof fn lemma_update_time_monotone(
    n: NoteV,
    r1: UpdateNoteRequest,
    t1: int,
    r2: UpdateNoteRequest,
    t2: int,
)
    requires
        t1 <= t2,
    ensures
        ({
            let n1 = merged_note(n, &r1, t1);
            let n2 = merged_note(n1, &r2, t2);
            &&& time_value(n1.last_update_time) matches Some(v1) && time_value(
                n2.last_update_time,
            ) matches Some(v2) && v1 <= v2
        }),
{
    lemma_time_value_monotone(t1, t2);
}

/// Law: the persisted update time never decreases. A successful update
/// stores exactly the merged note (the store contract's insert is the
/// write-back), its update time denotes the clock reading handed in, and
/// when that reading is at least the value the stored update time denoted —
/// as it is whenever the clock has not gone backwards since the last write —
/// the stored time does not decrease.
pub proof fn lemma_persisted_update_time_monotone(
    m: Map<u128, NoteV>,
    id: u128,
    request: UpdateNoteRequest,
    now: int,
    v0: int,
)
    requires
        m.contains_key(id),
        time_value(m[id].last_update_time) == Some(v0),
        v0 <= now,
    ensures
        ({
            let m1 = m.insert(id, merged_note(m[id], &request, now));
            &&& m1[id] == merged_note(m[id], &request, now)
            &&& time_value(m1[id].last_update_time) == Some(now)
            &&& v0 <= now
        }),
{
    lemma_time_value_round_trip(now);
}

/// Law: archiving is terminal. After a successful archive the stored
/// archive time is exactly the archive instant and is set; by the archive
/// contract, any later archive of the same id must then return
/// `AlreadyArchived` and leave the store — that archive time included —
/// unchanged.
pub proof fn lemma_archive_idempotent_failure(m0: Map<u128, NoteV>, id: u128, t1: int)
    requires
        m0.contains_key(id),
        m0[id].delete_time is None,
    ensures
        ({
            let m1 = m0.insert(id, archived_note(m0[id], t1));
            &&& m1.contains_key(id)
            &&& m1[id].delete_time == Some(dec_str_int(t1))
            &&& m1[id].delete_time is Some
        }),
{
}

} // verus!
