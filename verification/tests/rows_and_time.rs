//! Tests of the relational row mapping, the id wrappers, and the stored
//! timestamp encoding.

use notes_lib::ids::{new_uuid_v4, parse_uuid, uuid_to_string};
use notes_lib::storage::models::{
    new_note_from, note_from_db, note_from_rows, update_for_archive, update_from_request, DBNote,
};
use notes_lib::timefmt::encode_time;
use notes_lib::types::{ArchiveNoteRequest, Note, Tag, UpdateNoteRequest};
use notes_lib::NoteError;

fn sample_note(uuid: u128) -> Note {
    Note {
        uuid,
        title: String::from("Foo"),
        owner: String::from("alice"),
        description: String::from("Bar"),
        tags: vec![Tag::Article, Tag::RecommendedBy(String::from("x"))],
        create_time: String::from("10"),
        last_update_time: String::from("11"),
        delete_time: None,
    }
}

fn row(uuid: &str, tags: Vec<String>) -> DBNote {
    DBNote {
        id: 1,
        uuid: String::from(uuid),
        title: String::from("Foo"),
        owner: String::from("alice"),
        description: String::from("Bar"),
        create_time: String::from("10"),
        last_update_time: String::from("11"),
        delete_time: None,
        tags,
    }
}

#[test]
fn encode_time_renders_decimal_seconds() {
    assert_eq!(encode_time(0), "0");
    assert_eq!(encode_time(7), "7");
    assert_eq!(encode_time(1699999999), "1699999999");
    assert_eq!(encode_time(-5), "-5");
    assert_eq!(encode_time(i64::MIN), "-9223372036854775808");
    assert_eq!(encode_time(i64::MAX), "9223372036854775807");
}

#[test]
fn uuid_strings_round_trip() {
    let v = 0x550e8400e29b41d4a716446655440000u128;
    let s = uuid_to_string(v);
    assert_eq!(s, "550e8400-e29b-41d4-a716-446655440000");
    assert_eq!(parse_uuid(&s), Some(v));
    assert_eq!(parse_uuid("not a uuid"), None);
    assert_eq!(parse_uuid(""), None);
}

#[test]
fn fresh_uuids_differ() {
    assert_ne!(new_uuid_v4(), new_uuid_v4());
}

#[test]
fn note_survives_the_row_round_trip() {
    let v = new_uuid_v4();
    let note = sample_note(v);
    let new_row = new_note_from(note);
    let stored = DBNote {
        id: 1,
        uuid: new_row.uuid,
        title: new_row.title,
        owner: new_row.owner,
        description: new_row.description,
        create_time: new_row.create_time,
        last_update_time: new_row.last_update_time,
        delete_time: new_row.delete_time,
        tags: new_row.tags,
    };
    let back = note_from_db(stored).expect("a written row must read back");
    assert_eq!(back.uuid, v);
    assert_eq!(back.title, "Foo");
    assert_eq!(back.owner, "alice");
    assert_eq!(back.description, "Bar");
    assert_eq!(back.create_time, "10");
    assert_eq!(back.last_update_time, "11");
    assert!(back.delete_time.is_none());
    assert_eq!(back.tags.len(), 2);
    assert!(back.tags.contains(&Tag::Article));
    assert!(back.tags.contains(&Tag::RecommendedBy(String::from("x"))));
}

#[test]
fn distinct_tags_read_back_exactly() {
    let tags = vec![
        String::from("\"Article\""),
        String::from("\"Book\""),
        String::from("{\"Origin\":\"somewhere\"}"),
    ];
    let n = note_from_db(row("550e8400-e29b-41d4-a716-446655440000", tags)).expect("read");
    assert_eq!(n.tags.len(), 3);
}

#[test]
fn bad_rows_are_validation_errors() {
    let err = note_from_db(row("junk", Vec::new())).unwrap_err();
    assert_eq!(err, NoteError::ValidationError);

    let bad_tag = vec![String::from("\"NotATag\"")];
    let err = note_from_db(row("550e8400-e29b-41d4-a716-446655440000", bad_tag)).unwrap_err();
    assert_eq!(err, NoteError::ValidationError);

    let dup = vec![String::from("\"Book\""), String::from("\"Book\"")];
    let err = note_from_db(row("550e8400-e29b-41d4-a716-446655440000", dup)).unwrap_err();
    assert_eq!(err, NoteError::ValidationError);
}

#[test]
fn lookup_rows_decide_by_count() {
    let err = note_from_rows(Vec::new()).unwrap_err();
    assert_eq!(err, NoteError::NotFound);

    let two = vec![
        row("550e8400-e29b-41d4-a716-446655440000", Vec::new()),
        row("550e8400-e29b-41d4-a716-446655440000", Vec::new()),
    ];
    let err = note_from_rows(two).unwrap_err();
    assert_eq!(err, NoteError::Conflict);

    let one = vec![row("550e8400-e29b-41d4-a716-446655440000", Vec::new())];
    let n = note_from_rows(one).expect("a single well-formed row reads back");
    assert_eq!(n.uuid, 0x550e8400e29b41d4a716446655440000u128);
    assert_eq!(n.title, "Foo");

    let bad = vec![row("junk", Vec::new())];
    let err = note_from_rows(bad).unwrap_err();
    assert_eq!(err, NoteError::ValidationError);
}

#[test]
fn update_changeset_carries_only_set_fields() {
    let request = UpdateNoteRequest {
        note_id: 1,
        title: Some(String::from("t2")),
        description: None,
        tags: Some(vec![Tag::Movie]),
    };
    let u = update_from_request(request, 99);
    assert_eq!(u.last_update_time, "99");
    assert_eq!(u.title, Some(String::from("t2")));
    assert!(u.description.is_none());
    assert_eq!(u.tags, Some(vec![String::from("\"Movie\"")]));
    assert!(u.delete_time.is_none());
}

#[test]
fn archive_changeset_sets_both_times() {
    let u = update_for_archive(&ArchiveNoteRequest { note_id: 1 }, 44);
    assert_eq!(u.last_update_time, "44");
    assert_eq!(u.delete_time, Some(String::from("44")));
    assert!(u.title.is_none());
    assert!(u.description.is_none());
    assert!(u.tags.is_none());
}
