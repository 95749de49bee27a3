//! Tests of list storage and full-list resolution on the in-memory store.

use notes_lib::client::NotesClient;
use notes_lib::service::RequestHandler;
use notes_lib::storage::memory::MemoryNoteStore;
use notes_lib::storage::traits::NoteStore;
use notes_lib::types::{CreateNoteRequest, List};
use notes_lib::NoteError;

fn list(uuid: u128, owner: &str, notes: Vec<u128>) -> List {
    List {
        uuid,
        notes,
        title: String::from("reading"),
        owner: String::from(owner),
        description: String::from("things to read"),
    }
}

#[test]
fn store_list_upserts_wholesale() {
    let mut store = MemoryNoteStore::new();
    store.store_list(list(1, "alice", vec![])).expect("store");
    let lists = store.get_lists(String::from("alice")).expect("get");
    assert_eq!(lists.len(), 1);
    assert_eq!(lists.get(&1).unwrap().title, "reading");

    let mut replacement = list(1, "alice", vec![5]);
    replacement.title = String::from("watching");
    store.store_list(replacement).expect("store");
    let lists = store.get_lists(String::from("alice")).expect("get");
    assert_eq!(lists.len(), 1);
    assert_eq!(lists.get(&1).unwrap().title, "watching");
    assert_eq!(lists.get(&1).unwrap().notes, vec![5]);
}

#[test]
fn get_lists_on_empty_store_is_empty() {
    let store = MemoryNoteStore::new();
    let lists = store.get_lists(String::from("bob")).expect("get");
    assert!(lists.is_empty());
}

#[test]
fn full_list_resolves_every_reference() {
    let mut h = RequestHandler::new(MemoryNoteStore::new());
    let request = CreateNoteRequest {
        title: String::from("n1"),
        description: String::new(),
        tags: None,
        owner: String::from("alice"),
    };
    h.create_note_with(request, 7, 1).expect("create");
    h.storage.store_list(list(1, "alice", vec![7])).expect("store");

    let full = h.storage.get_full_list(1).expect("resolve");
    assert_eq!(full.list.uuid, 1);
    assert_eq!(full.list.notes, vec![7]);
    assert_eq!(full.notes_in_list.len(), 1);
    assert_eq!(full.notes_in_list.get(&7).unwrap().title, "n1");
}

#[test]
fn full_list_fails_on_a_dangling_reference() {
    let mut store = MemoryNoteStore::new();
    store.store_list(list(1, "alice", vec![7, 8])).expect("store");
    let err = store.get_full_list(1).unwrap_err();
    assert_eq!(err, NoteError::NotFound);
}

#[test]
fn full_list_of_a_missing_id_is_not_found() {
    let store = MemoryNoteStore::new();
    let err = store.get_full_list(123).unwrap_err();
    assert_eq!(err, NoteError::NotFound);
}

#[test]
fn client_keeps_its_endpoint() {
    let c = NotesClient::new(String::from("http://localhost:9001"));
    assert_eq!(c.endpoint, "http://localhost:9001");
}
