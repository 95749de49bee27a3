//! End-to-end scenarios for the request handler over the in-memory store.

use notes_lib::service::RequestHandler;
use notes_lib::storage::memory::MemoryNoteStore;
use notes_lib::types::{
    ArchiveNoteRequest, CreateNoteRequest, GetNoteRequest, GetNotesRequest, Tag,
    UpdateNoteRequest,
};
use notes_lib::NoteError;

fn handler() -> RequestHandler<MemoryNoteStore> {
    RequestHandler::new(MemoryNoteStore::new())
}

fn create_request(title: &str, description: &str, owner: &str) -> CreateNoteRequest {
    CreateNoteRequest {
        title: String::from(title),
        description: String::from(description),
        tags: None,
        owner: String::from(owner),
    }
}

#[test]
fn create_then_get_shows_the_note() {
    let mut h = handler();
    let resp = h
        .create_note_with(create_request("Foo", "Bar", "alice"), 7, 100)
        .expect("create must succeed on an empty store");
    assert_eq!(resp.note_id, 7);
    let got = h.get_note(GetNoteRequest { note_id: 7 }).expect("note must be there");
    assert_eq!(got.note.title, "Foo");
    assert_eq!(got.note.description, "Bar");
    assert_eq!(got.note.owner, "alice");
    assert!(got.note.tags.is_empty());
    assert_eq!(got.note.create_time, got.note.last_update_time);
    assert_eq!(got.note.create_time, "100");
    assert!(got.note.delete_time.is_none());
}

#[test]
fn full_lifecycle_scenario() {
    let mut h = handler();
    let id = h
        .create_note_with(create_request("Foo", "Bar", "alice"), 42, 10)
        .expect("create")
        .note_id;

    let update = UpdateNoteRequest {
        note_id: id,
        title: Some(String::from("Foo2")),
        description: None,
        tags: None,
    };
    h.update_note_at(update, 11).expect("update");
    let got = h.get_note(GetNoteRequest { note_id: id }).expect("get");
    assert_eq!(got.note.title, "Foo2");
    assert_eq!(got.note.description, "Bar");
    assert_eq!(got.note.create_time, "10");
    assert_eq!(got.note.last_update_time, "11");

    h.archive_note_at(ArchiveNoteRequest { note_id: id }, 12).expect("archive");
    let got = h.get_note(GetNoteRequest { note_id: id }).expect("get");
    assert_eq!(got.note.delete_time, Some(String::from("12")));

    let again = h.archive_note_at(ArchiveNoteRequest { note_id: id }, 13);
    assert_eq!(again.unwrap_err(), NoteError::AlreadyArchived);
    let got = h.get_note(GetNoteRequest { note_id: id }).expect("get");
    assert_eq!(got.note.delete_time, Some(String::from("12")));
    assert_eq!(got.note.last_update_time, "12");
}

#[test]
fn get_notes_on_empty_store_is_an_empty_mapping() {
    let h = handler();
    let resp = h
        .get_notes(GetNotesRequest { owner: String::from("bob") })
        .expect("an owner without notes is not an error");
    assert!(resp.notes.is_empty());
}

#[test]
fn get_notes_filters_by_owner_and_includes_archived() {
    let mut h = handler();
    h.create_note_with(create_request("a", "", "alice"), 1, 5).expect("create");
    h.create_note_with(create_request("b", "", "bob"), 2, 6).expect("create");
    h.create_note_with(create_request("c", "", "alice"), 3, 7).expect("create");
    h.archive_note_at(ArchiveNoteRequest { note_id: 3 }, 8).expect("archive");

    let resp = h.get_notes(GetNotesRequest { owner: String::from("alice") }).expect("get");
    assert_eq!(resp.notes.len(), 2);
    assert!(resp.notes.contains_key(&1));
    assert!(resp.notes.contains_key(&3));
    assert_eq!(resp.notes.get(&1).unwrap().title, "a");
    assert!(resp.notes.get(&3).unwrap().delete_time.is_some());

    let resp = h.get_notes(GetNotesRequest { owner: String::from("bob") }).expect("get");
    assert_eq!(resp.notes.len(), 1);
    assert!(resp.notes.contains_key(&2));
}

#[test]
fn created_ids_are_fresh_and_distinct() {
    let mut h = handler();
    let first = h.create_note(create_request("a", "", "alice")).expect("create").note_id;
    let second = h.create_note(create_request("b", "", "alice")).expect("create").note_id;
    assert_ne!(first, second);
}

#[test]
fn create_with_a_taken_id_is_a_conflict() {
    let mut h = handler();
    h.create_note_with(create_request("a", "", "alice"), 9, 1).expect("create");
    let err = h.create_note_with(create_request("b", "", "alice"), 9, 2).unwrap_err();
    assert_eq!(err, NoteError::Conflict);
    let got = h.get_note(GetNoteRequest { note_id: 9 }).expect("get");
    assert_eq!(got.note.title, "a");
}

#[test]
fn missing_notes_report_not_found() {
    let mut h = handler();
    let err = h.get_note(GetNoteRequest { note_id: 1 }).unwrap_err();
    assert_eq!(err, NoteError::NotFound);
    let err = h
        .update_note_at(
            UpdateNoteRequest { note_id: 1, title: None, description: None, tags: None },
            4,
        )
        .unwrap_err();
    assert_eq!(err, NoteError::NotFound);
    let err = h.archive_note_at(ArchiveNoteRequest { note_id: 1 }, 4).unwrap_err();
    assert_eq!(err, NoteError::NotFound);
}

#[test]
fn update_replaces_tags_wholesale() {
    let mut h = handler();
    let mut request = create_request("a", "", "alice");
    request.tags = Some(vec![Tag::Article, Tag::Book]);
    h.create_note_with(request, 4, 1).expect("create");

    let update = UpdateNoteRequest {
        note_id: 4,
        title: None,
        description: None,
        tags: Some(vec![Tag::Movie]),
    };
    h.update_note_at(update, 2).expect("update");
    let got = h.get_note(GetNoteRequest { note_id: 4 }).expect("get");
    assert_eq!(got.note.tags.len(), 1);
    assert!(got.note.tags.contains(&Tag::Movie));
}
