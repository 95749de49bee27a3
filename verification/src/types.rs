//! The data model: notes, ordered note lists, and the closed tag vocabulary,
//! together with their specification-level views.

use vstd::prelude::*;

use std::collections::HashMap;

verus! {

/// The curated, closed set of tags a note may carry. Fixed categorical
/// variants plus a few parameterized variants carrying free text.
#[derive(Debug)]
pub enum Tag {
    // Medium based
    Article,
    Book,
    Movie,
    Music,
    Series,
    Podcast,
    Recipe,
    Restaurant,
    Adventure,
    VideoGame,
    BoardGame,
    // Genre based
    Career,
    Entertainment,
    Productivity,
    // Topic based
    ArtificialIntelligence,
    EffectiveAltruism,
    SocialJustice,
    Environmental,
    // Meta based
    RecommendedBy(String),
    RemindsMeOf(String),
    Origin(String),
}

/// The mathematical value of a [`Tag`]: the same variants with the payload
/// text abstracted to a character sequence.
pub enum TagV {
    Article,
    Book,
    Movie,
    Music,
    Series,
    Podcast,
    Recipe,
    Restaurant,
    Adventure,
    VideoGame,
    BoardGame,
    Career,
    Entertainment,
    Productivity,
    ArtificialIntelligence,
    EffectiveAltruism,
    SocialJustice,
    Environmental,
    RecommendedBy(Seq<char>),
    RemindsMeOf(Seq<char>),
    Origin(Seq<char>),
}

impl View for Tag {
    type V = TagV;

    open spec fn view(&self) -> TagV {
        match self {
            Tag::Article => TagV::Article,
            Tag::Book => TagV::Book,
            Tag::Movie => TagV::Movie,
            Tag::Music => TagV::Music,
            Tag::Series => TagV::Series,
            Tag::Podcast => TagV::Podcast,
            Tag::Recipe => TagV::Recipe,
            Tag::Restaurant => TagV::Restaurant,
            Tag::Adventure => TagV::Adventure,
            Tag::VideoGame => TagV::VideoGame,
            Tag::BoardGame => TagV::BoardGame,
            Tag::Career => TagV::Career,
            Tag::Entertainment => TagV::Entertainment,
            Tag::Productivity => TagV::Productivity,
            Tag::ArtificialIntelligence => TagV::ArtificialIntelligence,
            Tag::EffectiveAltruism => TagV::EffectiveAltruism,
            Tag::SocialJustice => TagV::SocialJustice,
            Tag::Environmental => TagV::Environmental,
            Tag::RecommendedBy(s) => TagV::RecommendedBy(s@),
            Tag::RemindsMeOf(s) => TagV::RemindsMeOf(s@),
            Tag::Origin(s) => TagV::Origin(s@),
        }
    }
}

impl Clone for Tag {
    fn clone(&self) -> (r: Tag)
        ensures
            r == *self,
    {
        match self {
            Tag::Article => Tag::Article,
            Tag::Book => Tag::Book,
            Tag::Movie => Tag::Movie,
            Tag::Music => Tag::Music,
            Tag::Series => Tag::Series,
            Tag::Podcast => Tag::Podcast,
            Tag::Recipe => Tag::Recipe,
            Tag::Restaurant => Tag::Restaurant,
            Tag::Adventure => Tag::Adventure,
            Tag::VideoGame => Tag::VideoGame,
            Tag::BoardGame => Tag::BoardGame,
            Tag::Career => Tag::Career,
            Tag::Entertainment => Tag::Entertainment,
            Tag::Productivity => Tag::Productivity,
            Tag::ArtificialIntelligence => Tag::ArtificialIntelligence,
            Tag::EffectiveAltruism => Tag::EffectiveAltruism,
            Tag::SocialJustice => Tag::SocialJustice,
            Tag::Environmental => Tag::Environmental,
            Tag::RecommendedBy(s) => Tag::RecommendedBy(s.clone()),
            Tag::RemindsMeOf(s) => Tag::RemindsMeOf(s.clone()),
            Tag::Origin(s) => Tag::Origin(s.clone()),
        }
    }
}

impl PartialEq for Tag {
    fn eq(&self, other: &Tag) -> (r: bool) {
        match (self, other) {
            (Tag::Article, Tag::Article) => true,
            (Tag::Book, Tag::Book) => true,
            (Tag::Movie, Tag::Movie) => true,
            (Tag::Music, Tag::Music) => true,
            (Tag::Series, Tag::Series) => true,
            (Tag::Podcast, Tag::Podcast) => true,
            (Tag::Recipe, Tag::Recipe) => true,
            (Tag::Restaurant, Tag::Restaurant) => true,
            (Tag::Adventure, Tag::Adventure) => true,
            (Tag::VideoGame, Tag::VideoGame) => true,
            (Tag::BoardGame, Tag::BoardGame) => true,
            (Tag::Career, Tag::Career) => true,
            (Tag::Entertainment, Tag::Entertainment) => true,
            (Tag::Productivity, Tag::Productivity) => true,
            (Tag::ArtificialIntelligence, Tag::ArtificialIntelligence) => true,
            (Tag::EffectiveAltruism, Tag::EffectiveAltruism) => true,
            (Tag::SocialJustice, Tag::SocialJustice) => true,
            (Tag::Environmental, Tag::Environmental) => true,
            (Tag::RecommendedBy(a), Tag::RecommendedBy(b)) => *a == *b,
            (Tag::RemindsMeOf(a), Tag::RemindsMeOf(b)) => *a == *b,
            (Tag::Origin(a), Tag::Origin(b)) => *a == *b,
            _ => false,
        }
    }
}

impl vstd::std_specs::cmp::PartialEqSpecImpl for Tag {
    open spec fn obeys_eq_spec() -> bool {
        true
    }

    open spec fn eq_spec(&self, other: &Tag) -> bool {
        self@ == other@
    }
}

/// The views of a sequence of tags, in order.
pub open spec fn tags_view(tags: Seq<Tag>) -> Seq<TagV> {
    tags.map_values(|t: Tag| t@)
}

/// A note: a single user-authored record with lifecycle timestamps.
///
/// The identifier is the 128-bit value of the note's UUID, assigned at
/// creation and never reassigned. Timestamps are string-encoded integer epoch
/// seconds. A set `delete_time` means the note is archived; archiving is
/// terminal.
#[derive(Debug)]
pub struct Note {
    /// Unique id for this entry.
    pub uuid: u128,
    /// The title of this entry.
    pub title: String,
    /// The owner of this note.
    pub owner: String,
    /// Description about this entry.
    pub description: String,
    /// Tags associated with this content; a tag value appears at most once.
    pub tags: Vec<Tag>,
    pub create_time: String,
    pub last_update_time: String,
    pub delete_time: Option<String>,
}

/// The mathematical value of a [`Note`]. Tags are a set: well-formed notes
/// never hold the same tag twice.
#[verifier::ext_equal]
pub struct NoteV {
    pub uuid: u128,
    pub title: Seq<char>,
    pub owner: Seq<char>,
    pub description: Seq<char>,
    pub tags: Set<TagV>,
    pub create_time: Seq<char>,
    pub last_update_time: Seq<char>,
    pub delete_time: Option<Seq<char>>,
}

impl View for Note {
    type V = NoteV;

    open spec fn view(&self) -> NoteV {
        NoteV {
            uuid: self.uuid,
            title: self.title@,
            owner: self.owner@,
            description: self.description@,
            tags: tags_view(self.tags@).to_set(),
            create_time: self.create_time@,
            last_update_time: self.last_update_time@,
            delete_time: match self.delete_time {
                Some(s) => Some(s@),
                None => None,
            },
        }
    }
}

impl Note {
    /// A well-formed note lists each tag value at most once.
    pub open spec fn wf(&self) -> bool {
        tags_view(self.tags@).no_duplicates()
    }
}

impl Clone for Note {
    fn clone(&self) -> (r: Note)
        ensures
            r@ == self@,
            r.tags@ == self.tags@,
            r.wf() == self.wf(),
    {
        Note {
            uuid: self.uuid,
            title: self.title.clone(),
            owner: self.owner.clone(),
            description: self.description.clone(),
            tags: clone_tags(&self.tags),
            create_time: self.create_time.clone(),
            last_update_time: self.last_update_time.clone(),
            delete_time: match &self.delete_time {
                Some(s) => Some(s.clone()),
                None => None,
            },
        }
    }
}

/// Copies a tag vector value for value.
fn clone_tags(tags: &Vec<Tag>) -> (r: Vec<Tag>)
    ensures
        r@ == tags@,
{
    let mut r: Vec<Tag> = Vec::new();
    let mut i: usize = 0;
    while i < tags.len()
        invariant
            i <= tags@.len(),
            r@ == tags@.subrange(0, i as int),
        decreases tags@.len() - i,
    {
        r.push(tags[i].clone());
        i = i + 1;
        proof {
            assert(r@ =~= tags@.subrange(0, i as int));
        }
    }
    proof {
        assert(r@ =~= tags@);
    }
    r
}

/// Decides whether `tags` holds a tag with the same value as `t`.
pub fn tags_contain(tags: &Vec<Tag>, t: &Tag) -> (r: bool)
    ensures
        r == tags_view(tags@).contains(t@),
{
    let mut i: usize = 0;
    while i < tags.len()
        invariant
            i <= tags@.len(),
            forall|k: int| 0 <= k < i ==> tags_view(tags@)[k] != t@,
        decreases tags@.len() - i,
    {
        if &tags[i] == t {
            proof {
                assert(tags_view(tags@)[i as int] == t@);
            }
            return true;
        }
        i = i + 1;
    }
    proof {
        if tags_view(tags@).contains(t@) {
            let k = choose|k: int| 0 <= k < tags_view(tags@).len() && tags_view(tags@)[k] == t@;
            assert(tags_view(tags@)[k] != t@);
        }
    }
    false
}

/// Drops repeated tag values, keeping the first occurrence of each, so the
/// result denotes the same set of tags with no duplicates.
pub fn dedup_tags(tags: Vec<Tag>) -> (r: Vec<Tag>)
    ensures
        tags_view(r@).no_duplicates(),
        tags_view(r@).to_set() == tags_view(tags@).to_set(),
{
    let mut r: Vec<Tag> = Vec::new();
    let mut i: usize = 0;
    while i < tags.len()
        invariant
            i <= tags@.len(),
            tags_view(r@).no_duplicates(),
            forall|x: TagV| tags_view(r@).contains(x) <==> tags_view(
                tags@.subrange(0, i as int),
            ).contains(x),
        decreases tags@.len() - i,
    {
        let ghost prev = r@;
        let present = tags_contain(&r, &tags[i]);
        if !present {
            r.push(tags[i].clone());
        }
        i = i + 1;
        proof {
            let t = tags@[i - 1]@;
            let pref = tags@.subrange(0, i - 1);
            assert(tags_view(tags@.subrange(0, i as int)) =~= tags_view(pref).push(t));
            if !present {
                assert(tags_view(r@) =~= tags_view(prev).push(t));
                assert forall|a: int, b: int|
                    0 <= a < tags_view(r@).len() && 0 <= b < tags_view(r@).len() && a
                        != b implies tags_view(r@)[a] != tags_view(r@)[b] by {
                    if a == tags_view(r@).len() - 1 && tags_view(r@)[a] == tags_view(r@)[b] {
                        assert(tags_view(prev).contains(t));
                    }
                    if b == tags_view(r@).len() - 1 && tags_view(r@)[a] == tags_view(r@)[b] {
                        assert(tags_view(prev).contains(t));
                    }
                }
            }
            assert forall|x: TagV|
                tags_view(r@).contains(x) <==> tags_view(
                    tags@.subrange(0, i as int),
                ).contains(x) by {
                let cur = tags_view(tags@.subrange(0, i as int));
                if tags_view(r@).contains(x) {
                    let k = choose|k: int|
                        0 <= k < tags_view(r@).len() && tags_view(r@)[k] == x;
                    if k < tags_view(prev).len() {
                        assert(tags_view(prev).contains(x));
                        assert(tags_view(pref).contains(x));
                        let m = choose|m: int|
                            0 <= m < tags_view(pref).len() && tags_view(pref)[m] == x;
                        assert(cur[m] == x);
                    } else {
                        assert(x == t);
                        assert(cur[cur.len() - 1] == t);
                    }
                }
                if cur.contains(x) {
                    let k = choose|k: int| 0 <= k < cur.len() && cur[k] == x;
                    if k < cur.len() - 1 {
                        assert(tags_view(pref)[k] == x);
                        assert(tags_view(pref).contains(x));
                        assert(tags_view(prev).contains(x));
                        let m = choose|m: int|
                            0 <= m < tags_view(prev).len() && tags_view(prev)[m] == x;
                        assert(tags_view(r@)[m] == x);
                    } else {
                        assert(x == t);
                        if present {
                            assert(tags_view(prev).contains(t));
                            let m = choose|m: int|
                                0 <= m < tags_view(prev).len() && tags_view(prev)[m] == t;
                            assert(tags_view(r@)[m] == t);
                        } else {
                            assert(tags_view(r@)[tags_view(r@).len() - 1] == t);
                        }
                    }
                }
            }
        }
    }
    proof {
        assert(tags@.subrange(0, tags@.len() as int) =~= tags@);
        assert(tags_view(r@).to_set() =~= tags_view(tags@).to_set());
    }
    r
}

/// An ordered, named collection of note references. Order is meaningful: it
/// is the user-chosen ranking. A list holds note ids, not the notes.
#[derive(Debug)]
pub struct List {
    pub uuid: u128,
    /// Ids of the notes in this list, in ranking order.
    pub notes: Vec<u128>,
    /// Title of the list.
    pub title: String,
    /// The owner of this list.
    pub owner: String,
    /// Text that can provide any other information about this list.
    pub description: String,
}

/// The mathematical value of a [`List`].
#[verifier::ext_equal]
pub struct ListV {
    pub uuid: u128,
    pub notes: Seq<u128>,
    pub title: Seq<char>,
    pub owner: Seq<char>,
    pub description: Seq<char>,
}

impl View for List {
    type V = ListV;

    open spec fn view(&self) -> ListV {
        ListV {
            uuid: self.uuid,
            notes: self.notes@,
            title: self.title@,
            owner: self.owner@,
            description: self.description@,
        }
    }
}

impl Clone for List {
    fn clone(&self) -> (r: List)
        ensures
            r@ == self@,
    {
        let mut notes: Vec<u128> = Vec::new();
        let mut i: usize = 0;
        while i < self.notes.len()
            invariant
                i <= self.notes@.len(),
                notes@ == self.notes@.subrange(0, i as int),
            decreases self.notes@.len() - i,
        {
            notes.push(self.notes[i]);
            i = i + 1;
            proof {
                assert(notes@ =~= self.notes@.subrange(0, i as int));
            }
        }
        proof {
            assert(notes@ =~= self.notes@);
        }
        List {
            uuid: self.uuid,
            notes,
            title: self.title.clone(),
            owner: self.owner.clone(),
            description: self.description.clone(),
        }
    }
}

// API interface

#[derive(Debug)]
pub struct CreateNoteRequest {
    pub title: String,
    pub description: String,
    pub tags: Option<Vec<Tag>>,
    pub owner: String,
}

#[derive(Debug)]
pub struct CreateNoteResponse {
    pub note_id: u128,
}

#[derive(Debug)]
pub struct GetNoteRequest {
    pub note_id: u128,
}

#[derive(Debug)]
pub struct GetNotesRequest {
    pub owner: String,
}

#[derive(Debug)]
pub struct GetNotesResponse {
    pub notes: HashMap<u128, Note>,
}

#[derive(Debug)]
pub struct ArchiveNoteRequest {
    pub note_id: u128,
}

#[derive(Debug)]
pub struct ArchiveNoteResponse {}

#[derive(Debug)]
pub struct GetNoteResponse {
    pub note: Note,
}

#[derive(Debug)]
pub struct UpdateNoteRequest {
    /// Note to update.
    pub note_id: u128,
    pub title: Option<String>,
    pub description: Option<String>,
    pub tags: Option<Vec<Tag>>,
}

#[derive(Debug)]
pub struct UpdateNoteResponse {}

/// A read-only composite built on demand: a list together with the resolved
/// note for each id it references. Never persisted.
#[derive(Debug)]
pub struct FullList {
    pub list: List,
    pub notes_in_list: HashMap<u128, Note>,
}

} // verus!
