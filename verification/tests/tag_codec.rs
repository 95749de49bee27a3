//! Round-trip and rendering tests for the serialized tag form.

use notes_lib::codec::{tag_from_str, tag_to_string};
use notes_lib::types::{dedup_tags, Tag};

fn round_trips(t: Tag) {
    let s = tag_to_string(&t);
    let back = tag_from_str(s.as_str()).expect("rendered tag must parse");
    assert_eq!(back, t);
}

#[test]
fn unit_variants_round_trip() {
    round_trips(Tag::Article);
    round_trips(Tag::Book);
    round_trips(Tag::Movie);
    round_trips(Tag::Music);
    round_trips(Tag::Series);
    round_trips(Tag::Podcast);
    round_trips(Tag::Recipe);
    round_trips(Tag::Restaurant);
    round_trips(Tag::Adventure);
    round_trips(Tag::VideoGame);
    round_trips(Tag::BoardGame);
    round_trips(Tag::Career);
    round_trips(Tag::Entertainment);
    round_trips(Tag::Productivity);
    round_trips(Tag::ArtificialIntelligence);
    round_trips(Tag::EffectiveAltruism);
    round_trips(Tag::SocialJustice);
    round_trips(Tag::Environmental);
}

#[test]
fn parameterized_variants_round_trip() {
    round_trips(Tag::RecommendedBy(String::from("x")));
    round_trips(Tag::RemindsMeOf(String::from("a long, spaced text")));
    round_trips(Tag::Origin(String::new()));
    round_trips(Tag::RecommendedBy(String::from("quote \" and backslash \\ inside")));
    round_trips(Tag::Origin(String::from("{\"Origin\":\"nested\"}")));
}

#[test]
fn unit_rendering_is_the_quoted_name() {
    assert_eq!(tag_to_string(&Tag::Article), "\"Article\"");
    assert_eq!(tag_to_string(&Tag::ArtificialIntelligence), "\"ArtificialIntelligence\"");
}

#[test]
fn parameterized_rendering_is_the_keyed_object() {
    assert_eq!(
        tag_to_string(&Tag::RecommendedBy(String::from("x"))),
        "{\"RecommendedBy\":\"x\"}"
    );
    assert_eq!(
        tag_to_string(&Tag::Origin(String::from("a\"b\\c"))),
        "{\"Origin\":\"a\\\"b\\\\c\"}"
    );
}

#[test]
fn malformed_strings_are_rejected() {
    assert!(tag_from_str("Article").is_none());
    assert!(tag_from_str("\"article\"").is_none());
    assert!(tag_from_str("\"Articles\"").is_none());
    assert!(tag_from_str("").is_none());
    assert!(tag_from_str("{\"RecommendedBy\":\"x\"").is_none());
    assert!(tag_from_str("{\"RecommendedBy\":\"x\"}}").is_none());
    assert!(tag_from_str("{\"SomebodyElse\":\"x\"}").is_none());
    assert!(tag_from_str("{\"RecommendedBy\":\"unclosed").is_none());
}

#[test]
fn dedup_keeps_first_occurrence_set() {
    let tags = vec![
        Tag::Article,
        Tag::Book,
        Tag::Article,
        Tag::RecommendedBy(String::from("x")),
        Tag::RecommendedBy(String::from("x")),
        Tag::RecommendedBy(String::from("y")),
    ];
    let deduped = dedup_tags(tags);
    assert_eq!(deduped.len(), 4);
    assert!(deduped.contains(&Tag::Article));
    assert!(deduped.contains(&Tag::Book));
    assert!(deduped.contains(&Tag::RecommendedBy(String::from("x"))));
    assert!(deduped.contains(&Tag::RecommendedBy(String::from("y"))));
}
