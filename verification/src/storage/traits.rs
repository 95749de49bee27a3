//! The storage capability the service consumes: CRUD and query operations on
//! notes and lists, stated over the mathematical contents of the store.

use vstd::prelude::*;

use std::collections::HashMap;

use crate::types::{
    ArchiveNoteRequest, FullList, List, ListV, Note, NoteV, UpdateNoteRequest, tags_view,
};
use crate::timefmt::dec_str_int;
use crate::NoteError;

verus! {

/// The stored note after a partial update: fields present in the request
/// replace the stored ones, absent fields are untouched, and the update time
/// is refreshed to `now`.
pub open spec fn merged_note(n: NoteV, request: &UpdateNoteRequest, now: int) -> NoteV {
    NoteV {
        uuid: n.uuid,
        title: match request.title {
            Some(t) => t@,
            None => n.title,
        },
        owner: n.owner,
        description: match request.description {
            Some(d) => d@,
            None => n.description,
        },
        tags: match request.tags {
            Some(ts) => tags_view(ts@).to_set(),
            None => n.tags,
        },
        create_time: n.create_time,
        last_update_time: dec_str_int(now),
        delete_time: n.delete_time,
    }
}

/// The stored note after archiving at `now`: the archive time is set, the
/// update time is refreshed, and everything else is untouched.
pub open spec fn archived_note(n: NoteV, now: int) -> NoteV {
    NoteV {
        uuid: n.uuid,
        title: n.title,
        owner: n.owner,
        description: n.description,
        tags: n.tags,
        create_time: n.create_time,
        last_update_time: dec_str_int(now),
        delete_time: Some(dec_str_int(now)),
    }
}

/// The storage abstraction consumed by the service, with swappable backends.
///
/// The contracts describe the store as a pair of maps from id to record.
/// Transport concerns such as timeouts are outside these contracts: a backend
/// that cannot reach its medium surfaces that to its own caller before the
/// values modeled here are involved.
pub trait NoteStore: Sized {
    /// The notes the store holds, keyed by note id.
    spec fn notes(&self) -> Map<u128, NoteV>;

    /// The lists the store holds, keyed by list id.
    spec fn lists(&self) -> Map<u128, ListV>;

    /// The internal well-formedness of the store's representation.
    spec fn inv(&self) -> bool;

    /// Looks up one note by id; fails with `NotFound` exactly when no note
    /// has the id.
    fn get_note(&self, id: u128) -> (r: Result<Note, NoteError>)
        requires
            self.inv(),
        ensures
            match r {
                Ok(n) => self.notes().contains_key(id) && n@ == self.notes()[id] && n@.uuid == id
                    && n.wf(),
                Err(e) => e == NoteError::NotFound && !self.notes().contains_key(id),
            },
    ;

    /// Returns every note whose owner equals the argument, archived ones
    /// included; an empty mapping if none. Never fails.
    fn get_notes(&self, owner: String) -> (r: Result<HashMap<u128, Note>, NoteError>)
        requires
            self.inv(),
        ensures
            match r {
                Ok(m) => (forall|id: u128|
                    #[trigger] m@.contains_key(id) <==> (self.notes().contains_key(id)
                        && self.notes()[id].owner == owner@)) && (forall|id: u128|
                    m@.contains_key(id) ==> (#[trigger] m@[id])@ == self.notes()[id] && m@[id].wf()),
                Err(_) => false,
            },
    ;

    /// Persists a new note; fails with `Conflict` exactly when the id is
    /// already present. Nothing else changes either way.
    fn create_note(&mut self, note: Note) -> (r: Result<(), NoteError>)
        requires
            old(self).inv(),
            note.wf(),
        ensures
            final(self).inv(),
            final(self).lists() == old(self).lists(),
            match r {
                Ok(_) => !old(self).notes().contains_key(note.uuid) && final(self).notes() == old(
                    self,
                ).notes().insert(note.uuid, note@),
                Err(e) => e == NoteError::Conflict && old(self).notes().contains_key(note.uuid)
                    && final(self).notes() == old(self).notes(),
            },
    ;

    /// Merges the present fields of the request into the stored note and
    /// refreshes its update time; fails with `NotFound` exactly when the id
    /// is absent, changing nothing.
    fn update_note(&mut self, request: UpdateNoteRequest, now: i64) -> (r: Result<(), NoteError>)
        requires
            old(self).inv(),
            request.tags matches Some(ts) ==> tags_view(ts@).no_duplicates(),
        ensures
            final(self).inv(),
            final(self).lists() == old(self).lists(),
            match r {
                Ok(_) => old(self).notes().contains_key(request.note_id) && final(self).notes()
                    == old(self).notes().insert(
                    request.note_id,
                    merged_note(old(self).notes()[request.note_id], &request, now as int),
                ),
                Err(e) => e == NoteError::NotFound && !old(self).notes().contains_key(
                    request.note_id,
                ) && final(self).notes() == old(self).notes(),
            },
    ;

    /// Sets the archive time of a note, terminally. Fails with `NotFound`
    /// exactly when the id is absent and with `AlreadyArchived` exactly when
    /// the archive time is already set; either failure changes nothing.
    fn archive_note(&mut self, request: ArchiveNoteRequest, now: i64) -> (r: Result<
        (),
        NoteError,
    >)
        requires
            old(self).inv(),
        ensures
            final(self).inv(),
            final(self).lists() == old(self).lists(),
            match r {
                Ok(_) => old(self).notes().contains_key(request.note_id) && old(self).notes()[request.note_id].delete_time is None && final(self).notes() == old(self).notes().insert(
                    request.note_id,
                    archived_note(old(self).notes()[request.note_id], now as int),
                ),
                Err(e) => final(self).notes() == old(self).notes() && ((e == NoteError::NotFound
                    && !old(self).notes().contains_key(request.note_id)) || (e
                    == NoteError::AlreadyArchived && old(self).notes().contains_key(
                    request.note_id,
                ) && old(self).notes()[request.note_id].delete_time is Some)),
            },
    ;

    /// Returns every list whose owner equals the argument; an empty mapping
    /// if none. Never fails.
    fn get_lists(&self, owner: String) -> (r: Result<HashMap<u128, List>, NoteError>)
        requires
            self.inv(),
        ensures
            match r {
                Ok(m) => (forall|id: u128|
                    #[trigger] m@.contains_key(id) <==> (self.lists().contains_key(id)
                        && self.lists()[id].owner == owner@)) && (forall|id: u128|
                    m@.contains_key(id) ==> (#[trigger] m@[id])@ == self.lists()[id]),
                Err(_) => false,
            },
    ;

    /// Resolves a list and every note it references. Fails with `NotFound`
    /// exactly when the list id is absent or some referenced note is missing:
    /// a dangling reference fails the whole call rather than being omitted.
    fn get_full_list(&self, id: u128) -> (r: Result<FullList, NoteError>)
        requires
            self.inv(),
        ensures
            match r {
                Ok(fl) => self.lists().contains_key(id) && fl.list@ == self.lists()[id] && (
                forall|nid: u128|
                    #[trigger] fl.notes_in_list@.contains_key(nid) <==> self.lists()[id].notes.contains(nid)) && (forall|nid: u128|
                    fl.notes_in_list@.contains_key(nid) ==> self.notes().contains_key(nid) && (
                    #[trigger] fl.notes_in_list@[nid])@ == self.notes()[nid]),
                Err(e) => e == NoteError::NotFound && (!self.lists().contains_key(id) || exists|
                    nid: u128,
                |
                    #[trigger] self.lists()[id].notes.contains(nid) && !self.notes().contains_key(
                        nid,
                    )),
            },
    ;

    /// Upserts a list wholesale, keyed by its id: create or full replace.
    fn store_list(&mut self, list: List) -> (r: Result<(), NoteError>)
        requires
            old(self).inv(),
        ensures
            final(self).inv(),
            final(self).notes() == old(self).notes(),
            match r {
                Ok(_) => final(self).lists() == old(self).lists().insert(list.uuid, list@),
                Err(_) => false,
            },
    ;
}

} // verus!
