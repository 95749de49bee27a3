//! The serialized form of tags. Each tag is persisted as one self-describing
//! string: a fixed variant as its quoted name, a parameterized variant as an
//! object with the variant name as the single key and the payload as a quoted
//! string whose quotes and backslashes are escaped. Parsing is strict: a
//! string is accepted exactly when it is the rendering of some tag.

use vstd::prelude::*;

use crate::strutil::{chars_to_string, matches_at, push_str_chars, to_chars};
use crate::types::{Tag, TagV};

verus! {

/// The escaped form of payload text: backslash before every quote or
/// backslash, every other character kept as it is.
pub open spec fn esc(s: Seq<char>) -> Seq<char>
    decreases s.len(),
{
    if s.len() == 0 {
        Seq::empty()
    } else if s[0] == '"' || s[0] == '\\' {
        seq!['\\', s[0]] + esc(s.drop_first())
    } else {
        seq![s[0]] + esc(s.drop_first())
    }
}

/// Reads an escaped payload up to its closing quote, which must be followed
/// by exactly the closing brace and nothing else.
pub open spec fn parse_payload(s: Seq<char>) -> Option<Seq<char>>
    decreases s.len(),
{
    if s.len() < 2 {
        None
    } else if s[0] == '"' {
        if s.len() == 2 && s[1] == '}' {
            Some(Seq::empty())
        } else {
            None
        }
    } else if s[0] == '\\' {
        if s[1] == '\\' || s[1] == '"' {
            match parse_payload(s.skip(2)) {
                Some(p) => Some(seq![s[1]] + p),
                None => None,
            }
        } else {
            None
        }
    } else {
        match parse_payload(s.skip(1)) {
            Some(p) => Some(seq![s[0]] + p),
            None => None,
        }
    }
}

/// The serialized form of a tag value.
pub open spec fn spec_tag_str(t: TagV) -> Seq<char> {
    match t {
        TagV::Article => ("\"Article\""@),
        TagV::Book => ("\"Book\""@),
        TagV::Movie => ("\"Movie\""@),
        TagV::Music => ("\"Music\""@),
        TagV::Series => ("\"Series\""@),
        TagV::Podcast => ("\"Podcast\""@),
        TagV::Recipe => ("\"Recipe\""@),
        TagV::Restaurant => ("\"Restaurant\""@),
        TagV::Adventure => ("\"Adventure\""@),
        TagV::VideoGame => ("\"VideoGame\""@),
        TagV::BoardGame => ("\"BoardGame\""@),
        TagV::Career => ("\"Career\""@),
        TagV::Entertainment => ("\"Entertainment\""@),
        TagV::Productivity => ("\"Productivity\""@),
        TagV::ArtificialIntelligence => ("\"ArtificialIntelligence\""@),
        TagV::EffectiveAltruism => ("\"EffectiveAltruism\""@),
        TagV::SocialJustice => ("\"SocialJustice\""@),
        TagV::Environmental => ("\"Environmental\""@),
        TagV::RecommendedBy(p) => ("{\"RecommendedBy\":\""@) + esc(p) + ("\"}"@),
        TagV::RemindsMeOf(p) => ("{\"RemindsMeOf\":\""@) + esc(p) + ("\"}"@),
        TagV::Origin(p) => ("{\"Origin\":\""@) + esc(p) + ("\"}"@),
    }
}

/// Whether `p` is an initial segment of `s`.
pub open spec fn has_prefix(s: Seq<char>, p: Seq<char>) -> bool {
    s.len() >= p.len() && s.take(p.len() as int) == p
}

/// The tag a serialized string denotes, if any. Parsing is strict; any
/// string that is not the exact rendering of a tag is rejected.
pub open spec fn spec_parse_tag(s: Seq<char>) -> Option<TagV> {
    if s == ("\"Article\""@) {
        Some(TagV::Article)
    } else if s == ("\"Book\""@) {
        Some(TagV::Book)
    } else if s == ("\"Movie\""@) {
        Some(TagV::Movie)
    } else if s == ("\"Music\""@) {
        Some(TagV::Music)
    } else if s == ("\"Series\""@) {
        Some(TagV::Series)
    } else if s == ("\"Podcast\""@) {
        Some(TagV::Podcast)
    } else if s == ("\"Recipe\""@) {
        Some(TagV::Recipe)
    } else if s == ("\"Restaurant\""@) {
        Some(TagV::Restaurant)
    } else if s == ("\"Adventure\""@) {
        Some(TagV::Adventure)
    } else if s == ("\"VideoGame\""@) {
        Some(TagV::VideoGame)
    } else if s == ("\"BoardGame\""@) {
        Some(TagV::BoardGame)
    } else if s == ("\"Career\""@) {
        Some(TagV::Career)
    } else if s == ("\"Entertainment\""@) {
        Some(TagV::Entertainment)
    } else if s == ("\"Productivity\""@) {
        Some(TagV::Productivity)
    } else if s == ("\"ArtificialIntelligence\""@) {
        Some(TagV::ArtificialIntelligence)
    } else if s == ("\"EffectiveAltruism\""@) {
        Some(TagV::EffectiveAltruism)
    } else if s == ("\"SocialJustice\""@) {
        Some(TagV::SocialJustice)
    } else if s == ("\"Environmental\""@) {
        Some(TagV::Environmental)
    } else if has_prefix(s, ("{\"RecommendedBy\":\""@)) {
        match parse_payload(s.skip(("{\"RecommendedBy\":\""@).len() as int)) {
            Some(p) => Some(TagV::RecommendedBy(p)),
            None => None,
        }
    } else if has_prefix(s, ("{\"RemindsMeOf\":\""@)) {
        match parse_payload(s.skip(("{\"RemindsMeOf\":\""@).len() as int)) {
            Some(p) => Some(TagV::RemindsMeOf(p)),
            None => None,
        }
    } else if has_prefix(s, ("{\"Origin\":\""@)) {
        match parse_payload(s.skip(("{\"Origin\":\""@).len() as int)) {
            Some(p) => Some(TagV::Origin(p)),
            None => None,
        }
    } else {
        None
    }
}

/// Escaping distributes over concatenation.
proof fn lemma_esc_append(a: Seq<char>, b: Seq<char>)
    ensures
        esc(a + b) == esc(a) + esc(b),
    decreases a.len(),
{
    if a.len() == 0 {
        assert(a + b =~= b);
        assert(esc(a) + esc(b) =~= esc(b));
    } else {
        lemma_esc_append(a.drop_first(), b);
        assert((a + b).drop_first() =~= a.drop_first() + b);
        assert((a + b)[0] == a[0]);
        if a[0] == '"' || a[0] == '\\' {
            assert(esc(a + b) =~= esc(a) + esc(b));
        } else {
            assert(esc(a + b) =~= esc(a) + esc(b));
        }
    }
}

/// Reading back an escaped payload followed by the closing quote and brace
/// gives exactly the payload.
proof fn lemma_parse_payload_round_trip(p: Seq<char>)
    ensures
        parse_payload(esc(p) + seq!['"', '}']) == Some(p),
    decreases p.len(),
{
    let end = seq!['"', '}'];
    if p.len() == 0 {
        assert(esc(p) + end =~= end);
    } else {
        lemma_parse_payload_round_trip(p.drop_first());
        let c = p[0];
        let s = esc(p) + end;
        if c == '"' || c == '\\' {
            assert(esc(p) =~= seq!['\\', c] + esc(p.drop_first()));
            assert(s[0] == '\\');
            assert(s[1] == c);
            assert(s.skip(2) =~= esc(p.drop_first()) + end);
            assert(seq![s[1]] + p.drop_first() =~= p);
        } else {
            assert(esc(p) =~= seq![c] + esc(p.drop_first()));
            assert(s[0] == c);
            assert(s.len() >= 2);
            assert(s.skip(1) =~= esc(p.drop_first()) + end);
            assert(seq![s[0]] + p.drop_first() =~= p);
        }
    }
}

/// Law: parsing inverts rendering on every tag value, parameterized variants
/// and their payload escaping included.
pub proof fn lemma_tag_round_trip(t: TagV)
    ensures
        spec_parse_tag(spec_tag_str(t)) == Some(t),
{
    reveal_strlit("\"Article\"");
    reveal_strlit("\"Book\"");
    reveal_strlit("\"Movie\"");
    reveal_strlit("\"Music\"");
    reveal_strlit("\"Series\"");
    reveal_strlit("\"Podcast\"");
    reveal_strlit("\"Recipe\"");
    reveal_strlit("\"Restaurant\"");
    reveal_strlit("\"Adventure\"");
    reveal_strlit("\"VideoGame\"");
    reveal_strlit("\"BoardGame\"");
    reveal_strlit("\"Career\"");
    reveal_strlit("\"Entertainment\"");
    reveal_strlit("\"Productivity\"");
    reveal_strlit("\"ArtificialIntelligence\"");
    reveal_strlit("\"EffectiveAltruism\"");
    reveal_strlit("\"SocialJustice\"");
    reveal_strlit("\"Environmental\"");
    reveal_strlit("{\"RecommendedBy\":\"");
    reveal_strlit("{\"RemindsMeOf\":\"");
    reveal_strlit("{\"Origin\":\"");
    reveal_strlit("\"}");
    // Ground facts that tell the confusable renderings apart.
    assert(("\"Article\""@)[0] == '"');
    assert(("\"Book\""@)[0] == '"');
    assert(("\"Movie\""@)[0] == '"');
    assert(("\"Music\""@)[0] == '"');
    assert(("\"Series\""@)[0] == '"');
    assert(("\"Podcast\""@)[0] == '"');
    assert(("\"Recipe\""@)[0] == '"');
    assert(("\"Restaurant\""@)[0] == '"');
    assert(("\"Adventure\""@)[0] == '"');
    assert(("\"VideoGame\""@)[0] == '"');
    assert(("\"BoardGame\""@)[0] == '"');
    assert(("\"Career\""@)[0] == '"');
    assert(("\"Entertainment\""@)[0] == '"');
    assert(("\"Productivity\""@)[0] == '"');
    assert(("\"ArtificialIntelligence\""@)[0] == '"');
    assert(("\"EffectiveAltruism\""@)[0] == '"');
    assert(("\"SocialJustice\""@)[0] == '"');
    assert(("\"Environmental\""@)[0] == '"');
    assert(("\"Article\""@)[1] == 'A');
    assert(("\"Podcast\""@)[1] == 'P');
    assert(("\"Movie\""@)[3] == 'v');
    assert(("\"Music\""@)[3] == 's');
    assert(("\"Series\""@)[1] == 'S');
    assert(("\"Recipe\""@)[1] == 'R');
    assert(("\"Career\""@)[1] == 'C');
    assert(("\"Adventure\""@)[1] == 'A');
    assert(("\"VideoGame\""@)[1] == 'V');
    assert(("\"BoardGame\""@)[1] == 'B');
    assert(("\"Entertainment\""@)[1] == 'E');
    assert(("\"Entertainment\""@)[3] == 't');
    assert(("\"SocialJustice\""@)[1] == 'S');
    assert(("\"Environmental\""@)[1] == 'E');
    assert(("\"Environmental\""@)[3] == 'v');
    assert(("{\"RecommendedBy\":\""@)[2] == 'R');
    assert(("{\"RecommendedBy\":\""@)[4] == 'c');
    assert(("{\"RemindsMeOf\":\""@)[2] == 'R');
    assert(("{\"RemindsMeOf\":\""@)[4] == 'm');
    assert(("{\"Origin\":\""@)[2] == 'O');
    let s = spec_tag_str(t);
    match t {
        TagV::RecommendedBy(p) => {
            lemma_param_shape(("{\"RecommendedBy\":\""@), p);
            assert(has_prefix(s, ("{\"RecommendedBy\":\""@)));
            lemma_parse_payload_round_trip(p);
            assert(s.skip(("{\"RecommendedBy\":\""@).len() as int) =~= esc(p) + seq!['"', '}']);
            assert(s[0] == '{');
        },
        TagV::RemindsMeOf(p) => {
            lemma_param_shape(("{\"RemindsMeOf\":\""@), p);
            assert(has_prefix(s, ("{\"RemindsMeOf\":\""@)));
            assert(s[4] == 'm');
            if has_prefix(s, ("{\"RecommendedBy\":\""@)) {
                assert(s.take(("{\"RecommendedBy\":\""@).len() as int)[4] == s[4]);
            }
            lemma_parse_payload_round_trip(p);
            assert(s.skip(("{\"RemindsMeOf\":\""@).len() as int) =~= esc(p) + seq!['"', '}']);
            assert(s[0] == '{');
        },
        TagV::Origin(p) => {
            lemma_param_shape(("{\"Origin\":\""@), p);
            assert(has_prefix(s, ("{\"Origin\":\""@)));
            assert(s[2] == 'O');
            if has_prefix(s, ("{\"RecommendedBy\":\""@)) {
                assert(s.take(("{\"RecommendedBy\":\""@).len() as int)[2] == s[2]);
            }
            if has_prefix(s, ("{\"RemindsMeOf\":\""@)) {
                assert(s.take(("{\"RemindsMeOf\":\""@).len() as int)[2] == s[2]);
            }
            lemma_parse_payload_round_trip(p);
            assert(s.skip(("{\"Origin\":\""@).len() as int) =~= esc(p) + seq!['"', '}']);
            assert(s[0] == '{');
        },
        _ => {
        },
    }
}

/// The serialized form of a parameterized tag starts with its whole prefix
/// and its first character is the opening brace.
proof fn lemma_param_shape(prefix: Seq<char>, p: Seq<char>)
    requires
        prefix.len() >= 1,
    ensures
        (prefix + esc(p) + ("\"}"@)).len() >= prefix.len() + 2,
        (prefix + esc(p) + ("\"}"@)).take(prefix.len() as int) == prefix,
        (prefix + esc(p) + ("\"}"@)).skip(prefix.len() as int) == esc(p) + ("\"}"@),
        (prefix + esc(p) + ("\"}"@))[0] == prefix[0],
    decreases p.len(),
{
    reveal_strlit("\"}");
    lemma_esc_len(p);
    let s = prefix + esc(p) + ("\"}"@);
    assert(s.take(prefix.len() as int) =~= prefix);
    assert(s.skip(prefix.len() as int) =~= esc(p) + ("\"}"@));
}

/// Escaping never shortens the text.
proof fn lemma_esc_len(p: Seq<char>)
    ensures
        esc(p).len() >= p.len(),
    decreases p.len(),
{
    if p.len() > 0 {
        lemma_esc_len(p.drop_first());
    }
}

/// Appends the escaped form of `p` to `out`.
fn push_escaped(out: &mut Vec<char>, p: &str)
    ensures
        final(out)@ == old(out)@ + esc(p@),
{
    let n = p.unicode_len();
    let mut i: usize = 0;
    while i < n
        invariant
            n == p@.len(),
            i <= n,
            out@ == old(out)@ + esc(p@.take(i as int)),
        decreases n - i,
    {
        let c = p.get_char(i);
        if c == '"' || c == '\\' {
            out.push('\\');
            out.push(c);
        } else {
            out.push(c);
        }
        i = i + 1;
        proof {
            lemma_esc_append(p@.take(i - 1), seq![c]);
            assert(p@.take(i as int) =~= p@.take(i - 1) + seq![c]);
            assert(esc(Seq::<char>::empty()) == Seq::<char>::empty());
            assert(seq![c].drop_first() =~= Seq::<char>::empty());
            assert(esc(seq![c].drop_first()) == Seq::<char>::empty());
            if c == '"' || c == '\\' {
                assert(esc(seq![c]) =~= seq!['\\', c]);
                assert(out@ =~= old(out)@ + esc(p@.take(i as int)));
            } else {
                assert(esc(seq![c]) =~= seq![c]);
                assert(out@ =~= old(out)@ + esc(p@.take(i as int)));
            }
        }
    }
    proof {
        assert(p@.take(n as int) =~= p@);
    }
}

/// Renders a tag in its serialized string form.
pub fn tag_to_string(t: &Tag) -> (r: String)
    ensures
        r@ == spec_tag_str(t@),
{
    match t {
        Tag::Article => "\"Article\"".to_owned(),
        Tag::Book => "\"Book\"".to_owned(),
        Tag::Movie => "\"Movie\"".to_owned(),
        Tag::Music => "\"Music\"".to_owned(),
        Tag::Series => "\"Series\"".to_owned(),
        Tag::Podcast => "\"Podcast\"".to_owned(),
        Tag::Recipe => "\"Recipe\"".to_owned(),
        Tag::Restaurant => "\"Restaurant\"".to_owned(),
        Tag::Adventure => "\"Adventure\"".to_owned(),
        Tag::VideoGame => "\"VideoGame\"".to_owned(),
        Tag::BoardGame => "\"BoardGame\"".to_owned(),
        Tag::Career => "\"Career\"".to_owned(),
        Tag::Entertainment => "\"Entertainment\"".to_owned(),
        Tag::Productivity => "\"Productivity\"".to_owned(),
        Tag::ArtificialIntelligence => "\"ArtificialIntelligence\"".to_owned(),
        Tag::EffectiveAltruism => "\"EffectiveAltruism\"".to_owned(),
        Tag::SocialJustice => "\"SocialJustice\"".to_owned(),
        Tag::Environmental => "\"Environmental\"".to_owned(),
        Tag::RecommendedBy(p) => param_to_string("{\"RecommendedBy\":\"", p),
        Tag::RemindsMeOf(p) => param_to_string("{\"RemindsMeOf\":\"", p),
        Tag::Origin(p) => param_to_string("{\"Origin\":\"", p),
    }
}

/// Renders one parameterized variant: prefix, escaped payload, closing.
fn param_to_string(prefix: &str, p: &String) -> (r: String)
    ensures
        r@ == prefix@ + esc(p@) + ("\"}"@),
{
    let mut v: Vec<char> = Vec::new();
    push_str_chars(&mut v, prefix);
    push_escaped(&mut v, p.as_str());
    push_str_chars(&mut v, "\"}");
    chars_to_string(&v)
}

/// Reads back an escaped payload from `v` starting at `i`; the payload must
/// be closed by a quote and brace ending the vector.
fn parse_payload_from(v: &Vec<char>, i: usize) -> (r: Option<String>)
    requires
        i <= v@.len(),
    ensures
        match parse_payload(v@.skip(i as int)) {
            Some(p) => r matches Some(pv) && pv@ == p,
            None => r is None,
        },
    decreases v@.len() - i,
{
    let n = v.len();
    let ghost s = v@.skip(i as int);
    proof {
        assert(s.len() == n - i);
    }
    if n - i < 2 {
        return None;
    }
    let c = v[i];
    proof {
        assert(s[0] == v@[i as int]);
    }
    if c == '"' {
        if i + 2 == n && v[i + 1] == '}' {
            proof {
                assert(s[1] == v@[i + 1]);
            }
            Some(String::new())
        } else {
            proof {
                if s.len() == 2 && s[1] == '}' {
                    assert(v@[i + 1] == '}');
                }
            }
            None
        }
    } else if c == '\\' {
        let d = v[i + 1];
        proof {
            assert(s[1] == v@[i + 1]);
        }
        if d == '\\' || d == '"' {
            match parse_payload_from(v, i + 2) {
                Some(rest) => {
                    proof {
                        assert(v@.skip(i + 2) =~= s.skip(2));
                    }
                    let mut out = String::new();
                    crate::strutil::push_char(&mut out, d);
                    let r = out.concat(rest.as_str());
                    proof {
                        assert(r@ =~= seq![s[1]] + parse_payload(s.skip(2)).unwrap());
                    }
                    Some(r)
                },
                None => {
                    proof {
                        assert(v@.skip(i + 2) =~= s.skip(2));
                    }
                    None
                },
            }
        } else {
            None
        }
    } else {
        match parse_payload_from(v, i + 1) {
            Some(rest) => {
                proof {
                    assert(v@.skip(i + 1) =~= s.skip(1));
                }
                let mut out = String::new();
                crate::strutil::push_char(&mut out, c);
                let r = out.concat(rest.as_str());
                proof {
                    assert(r@ =~= seq![s[0]] + parse_payload(s.skip(1)).unwrap());
                }
                Some(r)
            },
            None => {
                proof {
                    assert(v@.skip(i + 1) =~= s.skip(1));
                }
                None
            },
        }
    }
}

/// Decides whether the whole of `v` equals the literal `lit`.
fn whole_is(v: &Vec<char>, lit: &str) -> (r: bool)
    ensures
        r == (v@ == lit@),
{
    let n = lit.unicode_len();
    if v.len() != n {
        proof {
            assert(v@.len() != lit@.len());
        }
        return false;
    }
    let m = matches_at(v, 0, lit);
    proof {
        if m {
            assert(v@.subrange(0, lit@.len() as int) =~= v@);
        }
        if v@ == lit@ {
            assert(v@.subrange(0, lit@.len() as int) =~= lit@);
        }
    }
    m
}

/// Parses the serialized form of a tag. Returns the tag a string denotes,
/// or `None` exactly when the string is not the rendering of any tag.
pub fn tag_from_str(s: &str) -> (r: Option<Tag>)
    ensures
        match spec_parse_tag(s@) {
            Some(tv) => r matches Some(t) && t@ == tv,
            None => r is None,
        },
{
    let v = to_chars(s);
    if whole_is(&v, "\"Article\"") {
        Some(Tag::Article)
    } else if whole_is(&v, "\"Book\"") {
        Some(Tag::Book)
    } else if whole_is(&v, "\"Movie\"") {
        Some(Tag::Movie)
    } else if whole_is(&v, "\"Music\"") {
        Some(Tag::Music)
    } else if whole_is(&v, "\"Series\"") {
        Some(Tag::Series)
    } else if whole_is(&v, "\"Podcast\"") {
        Some(Tag::Podcast)
    } else if whole_is(&v, "\"Recipe\"") {
        Some(Tag::Recipe)
    } else if whole_is(&v, "\"Restaurant\"") {
        Some(Tag::Restaurant)
    } else if whole_is(&v, "\"Adventure\"") {
        Some(Tag::Adventure)
    } else if whole_is(&v, "\"VideoGame\"") {
        Some(Tag::VideoGame)
    } else if whole_is(&v, "\"BoardGame\"") {
        Some(Tag::BoardGame)
    } else if whole_is(&v, "\"Career\"") {
        Some(Tag::Career)
    } else if whole_is(&v, "\"Entertainment\"") {
        Some(Tag::Entertainment)
    } else if whole_is(&v, "\"Productivity\"") {
        Some(Tag::Productivity)
    } else if whole_is(&v, "\"ArtificialIntelligence\"") {
        Some(Tag::ArtificialIntelligence)
    } else if whole_is(&v, "\"EffectiveAltruism\"") {
        Some(Tag::EffectiveAltruism)
    } else if whole_is(&v, "\"SocialJustice\"") {
        Some(Tag::SocialJustice)
    } else if whole_is(&v, "\"Environmental\"") {
        Some(Tag::Environmental)
    } else if matches_at(&v, 0, "{\"RecommendedBy\":\"") {
        proof {
            assert(v@.subrange(0, ("{\"RecommendedBy\":\""@).len() as int) == v@.take(
                ("{\"RecommendedBy\":\""@).len() as int,
            ));
        }
        let k = "{\"RecommendedBy\":\"".unicode_len();
        match parse_payload_from(&v, k) {
            Some(p) => Some(Tag::RecommendedBy(p)),
            None => None,
        }
    } else if matches_at(&v, 0, "{\"RemindsMeOf\":\"") {
        proof {
            assert(v@.subrange(0, ("{\"RemindsMeOf\":\""@).len() as int) == v@.take(
                ("{\"RemindsMeOf\":\""@).len() as int,
            ));
        }
        let k = "{\"RemindsMeOf\":\"".unicode_len();
        match parse_payload_from(&v, k) {
            Some(p) => Some(Tag::RemindsMeOf(p)),
            None => None,
        }
    } else if matches_at(&v, 0, "{\"Origin\":\"") {
        proof {
            assert(v@.subrange(0, ("{\"Origin\":\""@).len() as int) == v@.take(
                ("{\"Origin\":\""@).len() as int,
            ));
        }
        let k = "{\"Origin\":\"".unicode_len();
        match parse_payload_from(&v, k) {
            Some(p) => Some(Tag::Origin(p)),
            None => None,
        }
    } else {
        None
    }
}

} // verus!
