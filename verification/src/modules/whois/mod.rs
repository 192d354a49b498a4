//! What a whois server answers, read field by field.

pub mod report;

use vstd::prelude::*;
use vstd::string::*;
use crate::json::{item_views, lemma_item_views, texts_json, Json, JsonObject, JsonView};
use crate::rendering::{json_text, to_text};
use crate::text::{
    before_marker, is_before_marker, lines_of, lowercase, text_lines, text_views, to_lowercase,
    trim, trimmed,
};

verus! {

/// The result of a whois lookup.
#[derive(Debug)]
pub struct WhoisResult {
    pub domain: String,
    pub raw: String,
}

/// The groups of the first match of a regular expression in a text, the
/// whole match first: `None` where nothing matches, and where the pattern is
/// no regular expression. A group that took no part in the match is `None`.
pub uninterp spec fn first_captures(pattern: Seq<char>, text: Seq<char>) -> Option<
    Seq<Option<Seq<char>>>,
>;

/// The groups of every match of a regular expression in a text, from left
/// to right, without overlap: none where the pattern is no regular
/// expression.
pub uninterp spec fn all_captures(pattern: Seq<char>, text: Seq<char>) -> Seq<
    Seq<Option<Seq<char>>>,
>;

/// The views of some groups, in order.
pub open spec fn group_views(groups: Seq<Option<String>>) -> Seq<Option<Seq<char>>> {
    groups.map_values(
        |g: Option<String>|
            match g {
                Some(text) => Some(text@),
                None => None,
            },
    )
}

/// The views of the groups of some matches, in order.
pub open spec fn match_views(matches: Seq<Vec<Option<String>>>) -> Seq<Seq<Option<Seq<char>>>> {
    matches.map_values(|m: Vec<Option<String>>| group_views(m@))
}

/// Calls `regex::Regex::new` and `Regex::captures`, and copies the groups
/// out. Claimed: they depend on the pattern and the text alone.
#[verifier::external_body]
pub(crate) fn captures(pattern: &str, text: &str) -> (groups: Option<Vec<Option<String>>>)
    ensures
        match groups {
            Some(found) => first_captures(pattern@, text@) == Some(group_views(found@)),
            None => first_captures(pattern@, text@) is None,
        },
{
    let found = regex::Regex::new(pattern).ok()?.captures(text)?;
    Some(found.iter().map(|group| group.map(|m| m.as_str().to_string())).collect())
}

/// Calls `regex::Regex::new` and `Regex::captures_iter`, and copies the
/// groups of each match out. Claimed: they depend on the pattern and the
/// text alone.
#[verifier::external_body]
pub(crate) fn captures_all(pattern: &str, text: &str) -> (matches: Vec<Vec<Option<String>>>)
    ensures
        match_views(matches@) == all_captures(pattern@, text@),
{
    match regex::Regex::new(pattern) {
        Ok(re) => re.captures_iter(text).map(
            |found| found.iter().map(|group| group.map(|m| m.as_str().to_string())).collect(),
        ).collect(),
        Err(_) => Vec::new(),
    }
}

/// What ends the part of an answer that is read.
pub open spec fn last_update_marker() -> Seq<char> {
    ">>> Last update of WHOIS database:"@
}

/// The pattern of a line that holds a field: a name, a colon, a value.
pub open spec fn field_pattern() -> Seq<char> {
    "^([A-Za-z0-9 /_-]+):\\s*(.+)$"@
}

/// The answer up to the note of the last update of the database.
pub fn cut_at_last_update(raw: &str) -> (r: &str)
    ensures
        is_before_marker(raw@, last_update_marker(), r@),
{
    before_marker(raw, ">>> Last update of WHOIS database:")
}

/// The name and the value of the field that a line holds, both without
/// white space around them.
pub open spec fn line_field(line: Seq<char>) -> Option<(Seq<char>, Seq<char>)> {
    match first_captures(field_pattern(), line) {
        Some(groups) => if groups.len() == 3 && groups[1] is Some && groups[2] is Some {
            Some((trimmed(groups[1]->0), trimmed(groups[2]->0)))
        } else {
            None
        },
        None => None,
    }
}

/// The name and the value of the field that a line holds.
pub fn field_of_line(line: &str) -> (r: Option<(String, String)>)
    ensures
        match r {
            Some(field) => line_field(line@) == Some((field.0@, field.1@)),
            None => line_field(line@) is None,
        },
{
    match captures("^([A-Za-z0-9 /_-]+):\\s*(.+)$", line) {
        Some(groups) => {
            if groups.len() != 3 {
                return None;
            }
            assert(group_views(groups@)[1] == match groups[1] {
                Some(text) => Some(text@),
                None => None,
            });
            assert(group_views(groups@)[2] == match groups[2] {
                Some(text) => Some(text@),
                None => None,
            });
            match &groups[1] {
                Some(name) => match &groups[2] {
                    Some(value) => Some(
                        (trim(name.as_str()).to_owned(), trim(value.as_str()).to_owned()),
                    ),
                    None => None,
                },
                None => None,
            }
        },
        None => None,
    }
}

/// A space or a hyphen as an underscore, and any other character as it is.
pub open spec fn underscored(c: char) -> char {
    if c == ' ' || c == '-' {
        '_'
    } else {
        c
    }
}

/// The key of a field: its name in small letters, with underscores for
/// spaces and hyphens.
pub open spec fn slug(key: Seq<char>) -> Seq<char> {
    lowercase(key.map_values(|c: char| underscored(c)))
}

/// The key of a field: its name in small letters, with underscores for
/// spaces and hyphens.
pub fn sluggify_key(key: &str) -> (r: String)
    ensures
        r@ == slug(key@),
{
    let mut joined = String::new();
    let ghost mapped = key@.map_values(|c: char| underscored(c));
    for c in it: key.chars()
        invariant
            it.seq() == key@,
            mapped == key@.map_values(|c: char| underscored(c)),
            joined@ == mapped.take(it.index() as int),
    {
        assert(mapped.take(it.index() + 1) =~= mapped.take(it.index() as int).push(
            underscored(c),
        ));
        if c == ' ' || c == '-' {
            joined.push('_');
        } else {
            joined.push(c);
        }
    }
    assert(mapped.take(key@.len() as int) =~= mapped);
    to_lowercase(joined.as_str())
}

/// The fields of some lines, each value under the key of its name; of two
/// fields of one key the later stays.
pub open spec fn whois_data(lines: Seq<Seq<char>>) -> Map<Seq<char>, JsonView>
    decreases lines.len(),
{
    if lines.len() == 0 {
        Map::empty()
    } else {
        let before = whois_data(lines.drop_last());
        match line_field(lines.last()) {
            Some(field) => before.insert(slug(field.0), JsonView::String(field.1)),
            None => before,
        }
    }
}

/// The lines that hold no field, in order.
pub open spec fn whois_extras(lines: Seq<Seq<char>>) -> Seq<Seq<char>>
    decreases lines.len(),
{
    if lines.len() == 0 {
        Seq::empty()
    } else {
        let before = whois_extras(lines.drop_last());
        match line_field(lines.last()) {
            Some(field) => before,
            None => before.push(lines.last()),
        }
    }
}

/// An answer as a JSON value: its fields under `data`, and the lines that
/// hold none under `extra_lines`.
pub open spec fn whois_json(raw: Seq<char>) -> JsonView {
    JsonView::Object(
        Map::<Seq<char>, JsonView>::empty().insert(
            "data"@,
            JsonView::Object(whois_data(text_lines(raw))),
        ).insert("extra_lines"@, JsonView::Array(texts_json(whois_extras(text_lines(raw))))),
    )
}

/// An answer as JSON: its fields under `data`, and the lines that hold
/// none under `extra_lines`.
pub fn json_raw(raw: &str) -> (r: String)
    ensures
        r@ == json_text(whois_json(raw@)),
{
    let lines = lines_of(raw);
    let ghost views = text_views(lines@);
    let mut data = JsonObject::new();
    let mut extras: Vec<Json> = Vec::new();
    let ghost mut extra_texts: Seq<Seq<char>> = Seq::empty();
    let mut i: usize = 0;
    assert(views.take(0) =~= Seq::<Seq<char>>::empty());
    while i < lines.len()
        invariant
            i <= lines.len(),
            views == text_views(lines@),
            data@ == whois_data(views.take(i as int)),
            extra_texts == whois_extras(views.take(i as int)),
            extras.len() == extra_texts.len(),
            forall|j: int|
                0 <= j < extras.len() ==> (#[trigger] extras[j])@ == JsonView::String(
                    extra_texts[j],
                ),
        decreases lines.len() - i,
    {
        proof {
            let upto = views.take(i + 1);
            assert(upto.drop_last() =~= views.take(i as int));
            assert(upto.last() == lines[i as int]@);
            assert(whois_data(upto) == match line_field(upto.last()) {
                Some(field) => whois_data(upto.drop_last()).insert(
                    slug(field.0),
                    JsonView::String(field.1),
                ),
                None => whois_data(upto.drop_last()),
            });
            assert(whois_extras(upto) == match line_field(upto.last()) {
                Some(field) => whois_extras(upto.drop_last()),
                None => whois_extras(upto.drop_last()).push(upto.last()),
            });
        }
        match field_of_line(lines[i].as_str()) {
            Some(field) => {
                data.insert(sluggify_key(field.0.as_str()), Json::String(field.1));
            },
            None => {
                extras.push(Json::String(lines[i].clone()));
                proof {
                    extra_texts = extra_texts.push(lines[i as int]@);
                }
            },
        }
        i += 1;
    }
    assert(views.take(i as int) =~= views);
    proof {
        lemma_item_views(extras@);
        assert(item_views(extras@) =~= texts_json(extra_texts));
    }
    let mut whole = JsonObject::new();
    whole.insert("data".to_owned(), Json::Object(data));
    whole.insert("extra_lines".to_owned(), Json::Array(extras));
    to_text(&Json::Object(whole))
}

impl WhoisResult {
    /// The result as it is printed: the text without white space around
    /// it, and a line feed.
    pub fn text(&self) -> (r: String)
        ensures
            r@ == trimmed(self.raw@) + "\n"@,
    {
        trim(self.raw.as_str()).to_owned().concat("\n")
    }
}

} // verus!
