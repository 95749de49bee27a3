//! The relational representation of a note and the mappings to and from it.
//! A row stores the UUID as its string rendering and each tag as one
//! serialized string; a partial update is a changeset row in which unset
//! fields are omitted rather than merged in application code.

use vstd::prelude::*;

use crate::types::{Note, NoteV, Tag, TagV, UpdateNoteRequest, ArchiveNoteRequest, tags_view, tags_contain};
use crate::codec::{spec_parse_tag, spec_tag_str, tag_from_str, tag_to_string};
use crate::ids::{parse_uuid, uuid_of_str, uuid_str_of, uuid_to_string};
use crate::timefmt::{dec_str_int, encode_time};
use crate::NoteError;

verus! {

/// A stored note row: the database representation of a note, with an
/// internal numeric key and the UUID as a unique secondary key.
#[derive(Debug)]
pub struct DBNote {
    pub id: i32,
    pub uuid: String,
    pub title: String,
    pub owner: String,
    pub description: String,
    pub create_time: String,
    pub last_update_time: String,
    pub delete_time: Option<String>,
    pub tags: Vec<String>,
}

/// A row to insert for a new note: a [`DBNote`] without the numeric key,
/// which the database assigns.
#[derive(Debug)]
pub struct NewNote {
    pub uuid: String,
    pub title: String,
    pub description: String,
    pub create_time: String,
    pub last_update_time: String,
    pub delete_time: Option<String>,
    pub owner: String,
    pub tags: Vec<String>,
}

/// A changeset for a single UPDATE scoped by UUID: only the set fields are
/// named in the statement, so unset fields keep their stored values.
#[derive(Debug)]
pub struct UpdateNote {
    pub last_update_time: String,
    pub title: Option<String>,
    pub description: Option<String>,
    pub tags: Option<Vec<String>>,
    pub delete_time: Option<String>,
}

/// Whether every serialized tag of a row parses and the parsed tags are
/// pairwise distinct.
pub open spec fn db_tags_ok(tags: Seq<String>) -> bool {
    &&& forall|i: int| 0 <= i < tags.len() ==> (spec_parse_tag(#[trigger] tags[i]@) is Some)
    &&& forall|i: int, j: int|
        0 <= i < tags.len() && 0 <= j < tags.len() && i != j ==> spec_parse_tag(tags[i]@)
            != spec_parse_tag(tags[j]@)
}

/// Whether a row reads back as a note: the UUID string parses and the tag
/// strings are well-formed and distinct.
pub open spec fn db_note_ok(db: &DBNote) -> bool {
    &&& uuid_of_str(db.uuid@) is Some
    &&& db_tags_ok(db.tags@)
}

/// The parsed tag of one serialized tag string.
pub open spec fn parsed_tag(s: String) -> TagV {
    spec_parse_tag(s@).unwrap()
}

/// The note value a well-formed row denotes.
pub open spec fn db_note_view(db: &DBNote) -> NoteV {
    NoteV {
        uuid: uuid_of_str(db.uuid@).unwrap(),
        title: db.title@,
        owner: db.owner@,
        description: db.description@,
        tags: db.tags@.map_values(|s: String| parsed_tag(s)).to_set(),
        create_time: db.create_time@,
        last_update_time: db.last_update_time@,
        delete_time: match db.delete_time {
            Some(s) => Some(s@),
            None => None,
        },
    }
}

/// Reads a stored row back into a note. Fails with `ValidationError` exactly
/// when the UUID does not parse, a tag string does not parse, or two tag
/// strings denote the same tag; a note with distinct tags reads back with
/// exactly that many tags and no duplicates.
pub fn note_from_db(db: DBNote) -> (r: Result<Note, NoteError>)
    ensures
        match r {
            Ok(n) => db_note_ok(&db) && n@ == db_note_view(&db) && n.wf() && n.tags@.len()
                == db.tags@.len(),
            Err(e) => e == NoteError::ValidationError && !db_note_ok(&db),
        },
{
    let uuid = match parse_uuid(db.uuid.as_str()) {
        Some(v) => v,
        None => {
            return Err(NoteError::ValidationError);
        },
    };
    let mut tags: Vec<Tag> = Vec::new();
    let mut i: usize = 0;
    while i < db.tags.len()
        invariant
            i <= db.tags@.len(),
            tags@.len() == i,
            forall|k: int|
                0 <= k < i ==> (spec_parse_tag(#[trigger] db.tags@[k]@) is Some),
            forall|k: int|
                0 <= k < i ==> tags_view(tags@)[k] == spec_parse_tag(#[trigger] db.tags@[k]@).unwrap(),
            tags_view(tags@).no_duplicates(),
        decreases db.tags@.len() - i,
    {
        let tag = match tag_from_str(db.tags[i].as_str()) {
            Some(t) => t,
            None => {
                return Err(NoteError::ValidationError);
            },
        };
        if tags_contain(&tags, &tag) {
            proof {
                let k = choose|k: int|
                    0 <= k < tags_view(tags@).len() && tags_view(tags@)[k] == tag@;
                assert(spec_parse_tag(db.tags@[k]@) == spec_parse_tag(db.tags@[i as int]@));
            }
            return Err(NoteError::ValidationError);
        }
        let ghost prev = tags@;
        tags.push(tag);
        i = i + 1;
        proof {
            assert(tags_view(tags@) =~= tags_view(prev).push(tags@[i - 1]@));
            assert forall|a: int, b: int|
                0 <= a < tags_view(tags@).len() && 0 <= b < tags_view(tags@).len() && a
                    != b implies tags_view(tags@)[a] != tags_view(tags@)[b] by {
                if a == tags_view(tags@).len() - 1 && tags_view(tags@)[a] == tags_view(tags@)[b] {
                    assert(tags_view(prev).contains(tags_view(tags@)[a]));
                }
                if b == tags_view(tags@).len() - 1 && tags_view(tags@)[a] == tags_view(tags@)[b] {
                    assert(tags_view(prev).contains(tags_view(tags@)[b]));
                }
            }
        }
    }
    let n = Note {
        uuid,
        title: db.title.clone(),
        owner: db.owner.clone(),
        description: db.description.clone(),
        create_time: db.create_time.clone(),
        last_update_time: db.last_update_time.clone(),
        delete_time: match &db.delete_time {
            Some(s) => Some(s.clone()),
            None => None,
        },
        tags,
    };
    proof {
        assert forall|a: int, b: int|
            0 <= a < db.tags@.len() && 0 <= b < db.tags@.len() && a != b implies spec_parse_tag(
            db.tags@[a]@,
        ) != spec_parse_tag(db.tags@[b]@) by {
            assert(tags_view(n.tags@)[a] == spec_parse_tag(db.tags@[a]@).unwrap());
            assert(tags_view(n.tags@)[b] == spec_parse_tag(db.tags@[b]@).unwrap());
        }
        assert(tags_view(n.tags@) =~= db.tags@.map_values(|s: String| parsed_tag(s)));
        assert(n@ =~= db_note_view(&db));
    }
    Ok(n)
}

/// Reads the result of a lookup by UUID, a unique key: no row is `NotFound`,
/// more than one row is `Conflict` (a corrupted unique-key invariant), and
/// exactly one row is read back as the note it denotes.
pub fn note_from_rows(rows: Vec<DBNote>) -> (r: Result<Note, NoteError>)
    ensures
        match r {
            Ok(n) => rows@.len() == 1 && db_note_ok(&rows@[0]) && n@ == db_note_view(&rows@[0])
                && n.wf(),
            Err(e) => (e == NoteError::NotFound && rows@.len() == 0) || (e == NoteError::Conflict
                && rows@.len() > 1) || (e == NoteError::ValidationError && rows@.len() == 1
                && !db_note_ok(&rows@[0])),
        },
{
    let mut rows = rows;
    if rows.len() > 1 {
        return Err(NoteError::Conflict);
    }
    match rows.pop() {
        Some(db) => note_from_db(db),
        None => Err(NoteError::NotFound),
    }
}

/// Writes a note as a row to insert: the UUID rendered as its canonical
/// string and each tag rendered in its serialized form, in tag order.
pub fn new_note_from(note: Note) -> (r: NewNote)
    ensures
        r.uuid@ == uuid_str_of(note.uuid),
        uuid_of_str(r.uuid@) == Some(note.uuid),
        r.title@ == note.title@,
        r.owner@ == note.owner@,
        r.description@ == note.description@,
        r.create_time@ == note.create_time@,
        r.last_update_time@ == note.last_update_time@,
        note.delete_time matches Some(d) ==> r.delete_time matches Some(rd) && rd@ == d@,
        note.delete_time is None ==> r.delete_time is None,
        r.tags@.len() == note.tags@.len(),
        forall|i: int|
            0 <= i < note.tags@.len() ==> (#[trigger] r.tags@[i])@ == spec_tag_str(
                tags_view(note.tags@)[i],
            ),
{
    let tags = tags_to_strings(&note.tags);
    NewNote {
        uuid: uuid_to_string(note.uuid),
        title: note.title,
        description: note.description,
        create_time: note.create_time,
        last_update_time: note.last_update_time,
        delete_time: note.delete_time,
        owner: note.owner,
        tags,
    }
}

/// Renders every tag of a note in its serialized form, in order.
fn tags_to_strings(tags: &Vec<Tag>) -> (r: Vec<String>)
    ensures
        r@.len() == tags@.len(),
        forall|i: int|
            0 <= i < tags@.len() ==> (#[trigger] r@[i])@ == spec_tag_str(tags_view(tags@)[i]),
{
    let mut r: Vec<String> = Vec::new();
    let mut i: usize = 0;
    while i < tags.len()
        invariant
            i <= tags@.len(),
            r@.len() == i,
            forall|k: int|
                0 <= k < i ==> (#[trigger] r@[k])@ == spec_tag_str(tags_view(tags@)[k]),
        decreases tags@.len() - i,
    {
        r.push(tag_to_string(&tags[i]));
        i = i + 1;
    }
    r
}

/// Builds the changeset for a partial update: the set fields of the request
/// carried over, tags rendered in their serialized form, the update time
/// refreshed, and the archive time untouched.
pub fn update_from_request(request: UpdateNoteRequest, now: i64) -> (r: UpdateNote)
    ensures
        r.last_update_time@ == dec_str_int(now as int),
        r.title == request.title,
        r.description == request.description,
        request.tags matches Some(ts) ==> r.tags matches Some(ss) && ss@.len() == ts@.len() && (
        forall|i: int|
            0 <= i < ts@.len() ==> (#[trigger] ss@[i])@ == spec_tag_str(tags_view(ts@)[i])),
        request.tags is None ==> r.tags is None,
        r.delete_time is None,
{
    let UpdateNoteRequest { note_id: _, title, description, tags } = request;
    let tag_update = match tags {
        Some(ts) => Some(tags_to_strings(&ts)),
        None => None,
    };
    UpdateNote {
        last_update_time: encode_time(now),
        title,
        description,
        tags: tag_update,
        delete_time: None,
    }
}

/// Builds the changeset that archives a note: archive and update time both
/// set to `now`, every other field left out of the statement.
pub fn update_for_archive(_request: &ArchiveNoteRequest, now: i64) -> (r: UpdateNote)
    ensures
        r.last_update_time@ == dec_str_int(now as int),
        r.delete_time matches Some(d) && d@ == dec_str_int(now as int),
        r.title is None,
        r.description is None,
        r.tags is None,
{
    let ts = encode_time(now);
    UpdateNote {
        last_update_time: ts.clone(),
        delete_time: Some(ts),
        title: None,
        description: None,
        tags: None,
    }
}


/// The note value stored after the database applies a changeset to a row
/// holding `n`: fields named in the statement overwrite, the others keep
/// their stored values.
pub open spec fn changeset_applied(n: NoteV, u: &UpdateNote) -> NoteV {
    NoteV {
        uuid: n.uuid,
        title: match u.title {
            Some(t) => t@,
            None => n.title,
        },
        owner: n.owner,
        description: match u.description {
            Some(d) => d@,
            None => n.description,
        },
        tags: match u.tags {
            Some(ss) => ss@.map_values(|s: String| parsed_tag(s)).to_set(),
            None => n.tags,
        },
        create_time: n.create_time,
        last_update_time: u.last_update_time@,
        delete_time: match u.delete_time {
            Some(d) => Some(d@),
            None => n.delete_time,
        },
    }
}

/// Law: the column-scoped UPDATE of the relational backend and the
/// read-merge-write of the in-memory backend agree. A changeset built by
/// [`update_from_request`] applied to any stored note value gives exactly
/// the merge the store contract promises.
pub proof fn lemma_changeset_matches_merge(
    n: NoteV,
    request: UpdateNoteRequest,
    u: UpdateNote,
    now: int,
)
    requires
        u.last_update_time@ == dec_str_int(now),
        u.title == request.title,
        u.description == request.description,
        request.tags matches Some(ts) ==> u.tags matches Some(ss) && ss@.len() == ts@.len() && (
        forall|i: int|
            0 <= i < ts@.len() ==> (#[trigger] ss@[i])@ == spec_tag_str(tags_view(ts@)[i])),
        request.tags is None ==> u.tags is None,
        u.delete_time is None,
    ensures
        changeset_applied(n, &u) == crate::storage::traits::merged_note(n, &request, now),
{
    match (request.tags, u.tags) {
        (Some(ts), Some(ss)) => {
            assert forall|i: int| 0 <= i < ss@.len() implies parsed_tag(#[trigger] ss@[i])
                == tags_view(ts@)[i] by {
                crate::codec::lemma_tag_round_trip(tags_view(ts@)[i]);
                assert(parsed_tag(ss@[i]) == spec_parse_tag(spec_tag_str(tags_view(ts@)[i])).unwrap());
            }
            assert(ss@.map_values(|s: String| parsed_tag(s)) =~= tags_view(ts@));
        },
        _ => {},
    }
    assert(changeset_applied(n, &u) =~= crate::storage::traits::merged_note(n, &request, now));
}

/// Law: the archive changeset built by [`update_for_archive`] applied to
/// any stored note value gives exactly the archived note the store contract
/// promises.
pub proof fn lemma_archive_changeset_matches(n: NoteV, u: UpdateNote, now: int)
    requires
        u.last_update_time@ == dec_str_int(now),
        u.delete_time matches Some(d) && d@ == dec_str_int(now),
        u.title is None,
        u.description is None,
        u.tags is None,
    ensures
        changeset_applied(n, &u) == crate::storage::traits::archived_note(n, now),
{
    assert(changeset_applied(n, &u) =~= crate::storage::traits::archived_note(n, now));
}

/// Law: a row written from a well-formed note value reads back as exactly
/// that value: the UUID string parses to the same id and the rendered tags
/// parse back to the same distinct tag set.
pub proof fn lemma_db_round_trip(db: &DBNote, nv: NoteV, tvs: Seq<TagV>)
    requires
        uuid_of_str(db.uuid@) == Some(nv.uuid),
        db.title@ == nv.title,
        db.owner@ == nv.owner,
        db.description@ == nv.description,
        db.create_time@ == nv.create_time,
        db.last_update_time@ == nv.last_update_time,
        (match nv.delete_time {
            Some(d) => db.delete_time matches Some(dd) && dd@ == d,
            None => db.delete_time is None,
        }),
        tvs.no_duplicates(),
        tvs.to_set() == nv.tags,
        db.tags@.len() == tvs.len(),
        forall|i: int| 0 <= i < tvs.len() ==> (#[trigger] db.tags@[i])@ == spec_tag_str(tvs[i]),
    ensures
        db_note_ok(db),
        db_note_view(db) == nv,
{
    assert forall|i: int| 0 <= i < db.tags@.len() implies (spec_parse_tag(
        #[trigger] db.tags@[i]@,
    ) is Some) && spec_parse_tag(db.tags@[i]@) == Some(tvs[i]) by {
        crate::codec::lemma_tag_round_trip(tvs[i]);
    }
    assert forall|i: int, j: int|
        0 <= i < db.tags@.len() && 0 <= j < db.tags@.len() && i != j implies spec_parse_tag(
        db.tags@[i]@,
    ) != spec_parse_tag(db.tags@[j]@) by {
        assert(tvs[i] != tvs[j]);
    }
    assert(db.tags@.map_values(|s: String| parsed_tag(s)) =~= tvs);
    assert(db_note_view(db) =~= nv);
}

} // verus!
