//! The in-memory store: two id-keyed maps, one for notes and one for lists.
//! Queries scan every record and filter by owner, which is acceptable for
//! the intended personal volumes. Mutating operations hold exclusive access
//! for the whole read-modify-write, so an update can never lose fields to a
//! concurrent writer.

use vstd::prelude::*;

use std::collections::HashMap;

use crate::types::{ArchiveNoteRequest, FullList, List, ListV, Note, NoteV, UpdateNoteRequest};
use crate::storage::traits::{archived_note, merged_note, NoteStore};
use crate::timefmt::encode_time;
use crate::NoteError;

verus! {

/// In-memory storage for notes and lists. The id vectors track the key sets
/// of the maps so that owner scans can walk a plain sequence.
pub struct MemoryNoteStore {
    notes: HashMap<u128, Note>,
    note_ids: Vec<u128>,
    lists: HashMap<u128, List>,
    list_ids: Vec<u128>,
}

impl MemoryNoteStore {
    /// Creates an empty store.
    pub fn new() -> (r: MemoryNoteStore)
        ensures
            r.inv(),
            r.notes() == Map::<u128, NoteV>::empty(),
            r.lists() == Map::<u128, ListV>::empty(),
    {
        let r = MemoryNoteStore {
            notes: HashMap::new(),
            note_ids: Vec::new(),
            lists: HashMap::new(),
            list_ids: Vec::new(),
        };
        proof {
            assert(r.notes() =~= Map::<u128, NoteV>::empty());
            assert(r.lists() =~= Map::<u128, ListV>::empty());
        }
        r
    }
}

impl NoteStore for MemoryNoteStore {
    closed spec fn notes(&self) -> Map<u128, NoteV> {
        self.notes@.map_values(|n: Note| n@)
    }

    closed spec fn lists(&self) -> Map<u128, ListV> {
        self.lists@.map_values(|l: List| l@)
    }

    closed spec fn inv(&self) -> bool {
        &&& forall|id: u128|
            #[trigger] self.notes@.contains_key(id) ==> self.notes@[id].wf() && self.notes@[id].uuid == id
        &&& self.note_ids@.no_duplicates()
        &&& forall|i: int|
            0 <= i < self.note_ids@.len() ==> self.notes@.contains_key(
                #[trigger] self.note_ids@[i],
            )
        &&& forall|id: u128| #[trigger] self.notes@.contains_key(id) ==> self.note_ids@.contains(id)
        &&& forall|id: u128|
            #[trigger] self.lists@.contains_key(id) ==> self.lists@[id].uuid == id
        &&& self.list_ids@.no_duplicates()
        &&& forall|i: int|
            0 <= i < self.list_ids@.len() ==> self.lists@.contains_key(
                #[trigger] self.list_ids@[i],
            )
        &&& forall|id: u128| #[trigger] self.lists@.contains_key(id) ==> self.list_ids@.contains(id)
    }

    fn get_note(&self, id: u128) -> (r: Result<Note, NoteError>) {
        match self.notes.get(&id) {
            Some(n) => Ok(n.clone()),
            None => Err(NoteError::NotFound),
        }
    }

    fn get_notes(&self, owner: String) -> (r: Result<HashMap<u128, Note>, NoteError>) {
        let mut m: HashMap<u128, Note> = HashMap::new();
        let mut i: usize = 0;
        while i < self.note_ids.len()
            invariant
                self.inv(),
                i <= self.note_ids@.len(),
                forall|id: u128|
                    #[trigger] m@.contains_key(id) ==> self.notes().contains_key(id)
                        && self.notes()[id].owner == owner@ && (m@[id])@ == self.notes()[id] && m@[id].wf(),
                forall|j: int|
                    0 <= j < i && self.notes()[#[trigger] self.note_ids@[j]].owner == owner@
                        ==> m@.contains_key(self.note_ids@[j]),
            decreases self.note_ids@.len() - i,
        {
            let id = self.note_ids[i];
            match self.notes.get(&id) {
                Some(n) => {
                    if n.owner == owner {
                        m.insert(id, n.clone());
                    }
                },
                None => {
                    proof {
                        assert(false);
                    }
                },
            }
            i = i + 1;
        }
        proof {
            assert forall|id: u128|
                self.notes().contains_key(id) && self.notes()[id].owner
                    == owner@ implies #[trigger] m@.contains_key(id) by {
                assert(self.note_ids@.contains(id));
                let j = choose|j: int|
                    0 <= j < self.note_ids@.len() && self.note_ids@[j] == id;
                assert(self.notes()[self.note_ids@[j]].owner == owner@);
            }
        }
        Ok(m)
    }

    fn create_note(&mut self, note: Note) -> (r: Result<(), NoteError>) {
        if self.notes.contains_key(&note.uuid) {
            return Err(NoteError::Conflict);
        }
        let id = note.uuid;
        let ghost old_self = *self;
        self.notes.insert(id, note);
        self.note_ids.push(id);
        proof {
            assert(self.notes() =~= old_self.notes().insert(id, note@));
            assert forall|x: u128| #[trigger] self.notes@.contains_key(x) implies self
                .note_ids@.contains(x) by {
                if x == id {
                    assert(self.note_ids@[self.note_ids@.len() - 1] == id);
                } else {
                    assert(old_self.notes@.contains_key(x));
                    let j = choose|j: int|
                        0 <= j < old_self.note_ids@.len() && old_self.note_ids@[j] == x;
                    assert(self.note_ids@[j] == x);
                }
            }
            assert forall|i: int, j: int|
                0 <= i < self.note_ids@.len() && 0 <= j < self.note_ids@.len() && i
                    != j implies self.note_ids@[i] != self.note_ids@[j] by {
                if i < self.note_ids@.len() - 1 && j < self.note_ids@.len() - 1 {
                } else {
                    assert(!old_self.notes@.contains_key(id));
                    if old_self.note_ids@.contains(id) {
                        let k = choose|k: int|
                            0 <= k < old_self.note_ids@.len() && old_self.note_ids@[k] == id;
                        assert(old_self.notes@.contains_key(old_self.note_ids@[k]));
                    }
                }
            }
        }
        Ok(())
    }

    fn update_note(&mut self, request: UpdateNoteRequest, now: i64) -> (r: Result<
        (),
        NoteError,
    >) {
        let id = request.note_id;
        let stored = match self.notes.get(&id) {
            Some(n) => n.clone(),
            None => {
                return Err(NoteError::NotFound);
            },
        };
        let ghost old_self = *self;
        let mut n = stored;
        let UpdateNoteRequest { note_id: _, title, description, tags } = request;
        match title {
            Some(t) => {
                n.title = t;
            },
            None => {},
        }
        match description {
            Some(d) => {
                n.description = d;
            },
            None => {},
        }
        match tags {
            Some(ts) => {
                n.tags = ts;
            },
            None => {},
        }
        n.last_update_time = encode_time(now);
        proof {
            assert(n@ =~= merged_note(old_self.notes()[id], &request, now as int));
        }
        self.notes.insert(id, n);
        proof {
            lemma_ids_cover_after_replace(old_self, *self, id);
            assert(self.notes() =~= old_self.notes().insert(
                id,
                merged_note(old_self.notes()[id], &request, now as int),
            ));
        }
        Ok(())
    }

    fn archive_note(&mut self, request: ArchiveNoteRequest, now: i64) -> (r: Result<
        (),
        NoteError,
    >) {
        let id = request.note_id;
        let stored = match self.notes.get(&id) {
            Some(n) => n.clone(),
            None => {
                return Err(NoteError::NotFound);
            },
        };
        if stored.delete_time.is_some() {
            return Err(NoteError::AlreadyArchived);
        }
        let ghost old_self = *self;
        let mut n = stored;
        let ts = encode_time(now);
        n.last_update_time = ts.clone();
        n.delete_time = Some(ts);
        proof {
            assert(n@ =~= archived_note(old_self.notes()[id], now as int));
        }
        self.notes.insert(id, n);
        proof {
            lemma_ids_cover_after_replace(old_self, *self, id);
            assert(self.notes() =~= old_self.notes().insert(
                id,
                archived_note(old_self.notes()[id], now as int),
            ));
        }
        Ok(())
    }

    fn get_lists(&self, owner: String) -> (r: Result<HashMap<u128, List>, NoteError>) {
        let mut m: HashMap<u128, List> = HashMap::new();
        let mut i: usize = 0;
        while i < self.list_ids.len()
            invariant
                self.inv(),
                i <= self.list_ids@.len(),
                forall|id: u128|
                    #[trigger] m@.contains_key(id) ==> self.lists().contains_key(id)
                        && self.lists()[id].owner == owner@ && (m@[id])@ == self.lists()[id],
                forall|j: int|
                    0 <= j < i && self.lists()[#[trigger] self.list_ids@[j]].owner == owner@
                        ==> m@.contains_key(self.list_ids@[j]),
            decreases self.list_ids@.len() - i,
        {
            let id = self.list_ids[i];
            match self.lists.get(&id) {
                Some(l) => {
                    if l.owner == owner {
                        m.insert(id, l.clone());
                    }
                },
                None => {
                    proof {
                        assert(false);
                    }
                },
            }
            i = i + 1;
        }
        proof {
            assert forall|id: u128|
                self.lists().contains_key(id) && self.lists()[id].owner
                    == owner@ implies #[trigger] m@.contains_key(id) by {
                assert(self.list_ids@.contains(id));
                let j = choose|j: int|
                    0 <= j < self.list_ids@.len() && self.list_ids@[j] == id;
                assert(self.lists()[self.list_ids@[j]].owner == owner@);
            }
        }
        Ok(m)
    }

    fn get_full_list(&self, id: u128) -> (r: Result<FullList, NoteError>) {
        let list = match self.lists.get(&id) {
            Some(l) => l.clone(),
            None => {
                return Err(NoteError::NotFound);
            },
        };
        let mut m: HashMap<u128, Note> = HashMap::new();
        let mut i: usize = 0;
        while i < list.notes.len()
            invariant
                self.inv(),
                i <= list.notes@.len(),
                list@ == self.lists()[id],
                self.lists().contains_key(id),
                forall|j: int|
                    0 <= j < i ==> self.notes().contains_key(#[trigger] list.notes@[j]),
                forall|nid: u128|
                    #[trigger] m@.contains_key(nid) <==> list.notes@.take(i as int).contains(nid),
                forall|nid: u128|
                    m@.contains_key(nid) ==> self.notes().contains_key(nid) && (#[trigger] m@[nid])@ == self.notes()[nid],
            decreases list.notes@.len() - i,
        {
            let nid = list.notes[i];
            match self.notes.get(&nid) {
                Some(n) => {
                    m.insert(nid, n.clone());
                },
                None => {
                    proof {
                        assert(self.lists()[id].notes.contains(nid));
                    }
                    return Err(NoteError::NotFound);
                },
            }
            i = i + 1;
            proof {
                assert forall|x: u128|
                    #[trigger] m@.contains_key(x) <==> list.notes@.take(i as int).contains(
                        x,
                    ) by {
                    if m@.contains_key(x) {
                        if x == nid {
                            assert(list.notes@.take(i as int)[i - 1] == nid);
                        } else {
                            let k = choose|k: int|
                                0 <= k < i - 1 && #[trigger] list.notes@.take(i - 1)[k] == x;
                            assert(list.notes@.take(i as int)[k] == x);
                        }
                    }
                    if list.notes@.take(i as int).contains(x) {
                        let k = choose|k: int|
                            0 <= k < i && list.notes@.take(i as int)[k] == x;
                        if k < i - 1 {
                            assert(list.notes@.take(i - 1)[k] == x);
                        }
                    }
                }
            }
        }
        proof {
            assert(list.notes@.take(list.notes@.len() as int) =~= list.notes@);
            assert forall|nid: u128|
                #[trigger] m@.contains_key(nid) <==> self.lists()[id].notes.contains(nid) by {
            }
        }
        Ok(FullList { list, notes_in_list: m })
    }

    fn store_list(&mut self, list: List) -> (r: Result<(), NoteError>) {
        let id = list.uuid;
        let ghost old_self = *self;
        let fresh = !self.lists.contains_key(&id);
        self.lists.insert(id, list);
        if fresh {
            self.list_ids.push(id);
        }
        proof {
            assert(self.lists() =~= old_self.lists().insert(id, list@));
            assert forall|x: u128| #[trigger] self.lists@.contains_key(x) implies self
                .list_ids@.contains(x) by {
                if fresh && x == id {
                    assert(self.list_ids@[self.list_ids@.len() - 1] == id);
                } else {
                    assert(old_self.lists@.contains_key(x));
                    let j = choose|j: int|
                        0 <= j < old_self.list_ids@.len() && old_self.list_ids@[j] == x;
                    assert(self.list_ids@[j] == x);
                }
            }
            if fresh {
                assert forall|i: int, j: int|
                    0 <= i < self.list_ids@.len() && 0 <= j < self.list_ids@.len() && i
                        != j implies self.list_ids@[i] != self.list_ids@[j] by {
                    if i < self.list_ids@.len() - 1 && j < self.list_ids@.len() - 1 {
                    } else {
                        assert(!old_self.lists@.contains_key(id));
                        if old_self.list_ids@.contains(id) {
                            let k = choose|k: int|
                                0 <= k < old_self.list_ids@.len() && old_self.list_ids@[k] == id;
                            assert(old_self.lists@.contains_key(old_self.list_ids@[k]));
                        }
                    }
                }
            }
        }
        Ok(())
    }
}

/// Replacing the value under a key that is already present leaves the id
/// vector covering the map's keys.
proof fn lemma_ids_cover_after_replace(
    old_s: MemoryNoteStore,
    new_s: MemoryNoteStore,
    id: u128,
)
    requires
        old_s.inv(),
        old_s.notes@.contains_key(id),
        new_s.notes@ == old_s.notes@.insert(id, new_s.notes@[id]),
        new_s.note_ids@ == old_s.note_ids@,
        new_s.lists@ == old_s.lists@,
        new_s.list_ids@ == old_s.list_ids@,
        new_s.notes@[id].wf(),
        new_s.notes@[id].uuid == id,
    ensures
        new_s.inv(),
{
    assert forall|x: u128| #[trigger] new_s.notes@.contains_key(x) implies new_s
        .note_ids@.contains(x) by {
        assert(old_s.notes@.contains_key(x));
    }
}

} // verus!
