//! The HTTP interface: its tags and its description.

pub mod cal;
pub mod domains;

use vstd::prelude::*;
use vstd::string::*;
use crate::json::{text_under, JsonView};
use crate::rendering::{
    json_text, outside_items, outside_json, parse_array, parsed_array, text_field, value_list,
    value_to_text,
};
use crate::text::{before_marker, is_before_marker, occurs_at, text_views};

verus! {

#[derive(Clone, Copy, Debug, PartialEq, Eq, Structural)]
pub enum ApiTags {
    /// Domain Related Operations
    Domains,
    /// DNS Related Operations
    DNS,
}

/// The description of the interface, as JSON.
#[derive(Debug)]
pub struct OpenApiSpec {
    pub spec: String,
}

impl ApiTags {
    /// The name of the tag.
    pub fn name(&self) -> (r: &'static str)
        ensures
            r@ == match *self {
                ApiTags::Domains => "Domains"@,
                ApiTags::DNS => "DNS"@,
            },
    {
        match self {
            ApiTags::Domains => "Domains",
            ApiTags::DNS => "DNS",
        }
    }
}

/// What opens the list of tags in the description.
pub open spec fn tags_marker() -> Seq<char> {
    "\"tags\": ["@
}

/// Whether `at` is the first place at which the marker stands in the text.
pub open spec fn is_first_occurrence(text: Seq<char>, marker: Seq<char>, at: int) -> bool {
    occurs_at(text, marker, at) && forall|j: int| 0 <= j < at ==> !occurs_at(text, marker, j)
}

/// The first place at which the marker stands in the text.
pub open spec fn first_occurrence(text: Seq<char>, marker: Seq<char>) -> Option<int> {
    if exists|at: int| occurs_at(text, marker, at) {
        Some(choose|at: int| is_first_occurrence(text, marker, at))
    } else {
        None
    }
}

/// The first place is the only one that nothing comes before.
pub proof fn lemma_first_occurrence(text: Seq<char>, marker: Seq<char>, at: int)
    requires
        is_first_occurrence(text, marker, at),
    ensures
        first_occurrence(text, marker) == Some(at),
{
    let found = choose|k: int| is_first_occurrence(text, marker, k);
    assert(is_first_occurrence(text, marker, found));
    if found < at {
        assert(!occurs_at(text, marker, found));
    }
    if at < found {
        assert(!occurs_at(text, marker, at));
    }
}

/// The place behind the square bracket that closes the one which is open
/// `depth` deep at `at`: none where the text ends first. Brackets are
/// counted wherever they stand.
pub open spec fn bracket_end(text: Seq<char>, at: int, depth: int) -> Option<int>
    decreases text.len() - at,
{
    if at < 0 || at >= text.len() {
        None
    } else if text[at] == '[' {
        bracket_end(text, at + 1, depth + 1)
    } else if text[at] == ']' {
        if depth == 1 {
            Some(at + 1)
        } else {
            bracket_end(text, at + 1, depth - 1)
        }
    } else {
        bracket_end(text, at + 1, depth)
    }
}

/// Where the first tag of the given name stands, from `from` on.
pub open spec fn tag_position(tags: Seq<JsonView>, name: Seq<char>, from: int) -> Option<int>
    decreases tags.len() - from,
{
    if from < 0 || from >= tags.len() {
        None
    } else if text_under(tags[from], "name"@) == Some(name) {
        Some(from)
    } else {
        tag_position(tags, name, from + 1)
    }
}

/// The tags in the given order of names: for each name in turn the first
/// tag that bears it, and then the tags that are left, as they stood.
pub open spec fn reordered(tags: Seq<JsonView>, order: Seq<Seq<char>>) -> Seq<JsonView>
    decreases order.len(),
{
    if order.len() == 0 {
        tags
    } else {
        match tag_position(tags, order.first(), 0) {
            Some(at) => seq![tags[at]] + reordered(tags.remove(at), order.drop_first()),
            None => reordered(tags, order.drop_first()),
        }
    }
}

/// The description with its list of tags in the given order. It is left as
/// it is where it names no tags, where the list does not close, and where
/// the list is no JSON.
pub open spec fn reordered_description(json: Seq<char>, order: Seq<Seq<char>>) -> Seq<char> {
    match first_occurrence(json, tags_marker()) {
        Some(at) => {
            let start = at + 8;
            match bracket_end(json, start + 1, 1) {
                Some(end) => match parsed_array(json.subrange(start, end)) {
                    Some(tags) => json.take(start) + json_text(
                        JsonView::Array(reordered(tags, order)),
                    ) + json.skip(end),
                    None => json,
                },
                None => json,
            }
        },
        None => json,
    }
}

fn closing_bracket(json: &str, from: usize) -> (r: Option<usize>)
    requires
        1 <= from <= json@.len(),
    ensures
        match r {
            Some(end) => bracket_end(json@, from as int, 1) == Some(end as int) && from < end
                <= json@.len(),
            None => bracket_end(json@, from as int, 1) is None,
        },
{
    let total = json.unicode_len();
    let mut depth: usize = 1;
    let mut at: usize = 0;
    let mut found: Option<usize> = None;
    for c in it: json.chars()
        invariant
            it.seq() == json@,
            total == json@.len(),
            at == it.index(),
            1 <= from <= json@.len(),
            1 <= depth,
            depth <= if at <= from {
                1
            } else {
                at - from + 1
            },
            match found {
                Some(end) => bracket_end(json@, from as int, 1) == Some(end as int) && from < end
                    <= at,
                None => bracket_end(json@, from as int, 1) == bracket_end(
                    json@,
                    if at <= from {
                        from as int
                    } else {
                        at as int
                    },
                    depth as int,
                ) && (at <= from ==> depth == 1),
            },
    {
        if found.is_none() && at >= from {
            assert(bracket_end(json@, at as int, depth as int) == if json@[at as int] == '[' {
                bracket_end(json@, at + 1, depth + 1)
            } else if json@[at as int] == ']' {
                if depth == 1 {
                    Some(at + 1)
                } else {
                    bracket_end(json@, at + 1, depth - 1)
                }
            } else {
                bracket_end(json@, at + 1, depth as int)
            });
            if c == '[' {
                depth += 1;
            } else if c == ']' {
                if depth == 1 {
                    found = Some(at + 1);
                } else {
                    depth -= 1;
                }
            }
        }
        at += 1;
    }
    found
}

fn position_of_tag(tags: &Vec<serde_json::Value>, name: &str) -> (r: Option<usize>)
    ensures
        match r {
            Some(at) => tag_position(outside_items(tags@), name@, 0) == Some(at as int) && at
                < tags@.len(),
            None => tag_position(outside_items(tags@), name@, 0) is None,
        },
{
    let ghost views = outside_items(tags@);
    let mut i: usize = 0;
    while i < tags.len()
        invariant
            i <= tags.len(),
            views == outside_items(tags@),
            tag_position(views, name@, 0) == tag_position(views, name@, i as int),
        decreases tags.len() - i,
    {
        assert(views[i as int] == outside_json(tags[i as int]));
        match text_field(&tags[i], "name") {
            Some(found) => {
                if found.as_str().eq(name) {
                    return Some(i);
                }
            },
            None => {},
        }
        i += 1;
    }
    None
}

/// The tags in the given order of names.
fn reorder(tags: Vec<serde_json::Value>, tag_order: &[&str]) -> (r: Vec<serde_json::Value>)
    ensures
        outside_items(r@) == reordered(
            outside_items(tags@),
            tag_order@.map_values(|n: &str| n@),
        ),
{
    let ghost order = tag_order@.map_values(|n: &str| n@);
    let ghost whole = outside_items(tags@);
    let mut left = tags;
    let mut ordered: Vec<serde_json::Value> = Vec::new();
    let mut i: usize = 0;
    assert(order.skip(0) =~= order);
    assert(outside_items(ordered@) + reordered(outside_items(left@), order.skip(0)) =~= reordered(
        whole,
        order,
    ));
    while i < tag_order.len()
        invariant
            i <= tag_order.len(),
            order == tag_order@.map_values(|n: &str| n@),
            outside_items(ordered@) + reordered(outside_items(left@), order.skip(i as int))
                == reordered(whole, order),
        decreases tag_order.len() - i,
    {
        let ghost ordered_before = outside_items(ordered@);
        let ghost left_before = outside_items(left@);
        proof {
            let rest = order.skip(i as int);
            assert(rest.first() == tag_order[i as int]@);
            assert(rest.drop_first() =~= order.skip(i + 1));
            assert(reordered(left_before, rest) == match tag_position(
                left_before,
                rest.first(),
                0,
            ) {
                Some(at) => seq![left_before[at]] + reordered(
                    left_before.remove(at),
                    rest.drop_first(),
                ),
                None => reordered(left_before, rest.drop_first()),
            });
        }
        match position_of_tag(&left, tag_order[i]) {
            Some(at) => {
                let tag = left.remove(at);
                ordered.push(tag);
                proof {
                    assert(outside_items(left@) =~= left_before.remove(at as int));
                    assert(outside_items(ordered@) =~= ordered_before.push(
                        left_before[at as int],
                    ));
                    assert(outside_items(ordered@) + reordered(
                        outside_items(left@),
                        order.skip(i + 1),
                    ) =~= ordered_before + (seq![left_before[at as int]] + reordered(
                        left_before.remove(at as int),
                        order.skip(i + 1),
                    )));
                }
            },
            None => {},
        }
        i += 1;
    }
    proof {
        assert(order.skip(i as int).len() == 0);
        assert(reordered(outside_items(left@), order.skip(i as int)) == outside_items(left@));
    }
    let ghost ordered_before = outside_items(ordered@);
    let ghost left_before = outside_items(left@);
    ordered.append(&mut left);
    assert(outside_items(ordered@) =~= ordered_before + left_before);
    ordered
}

/// The description of the interface with its list of tags in the given
/// order of names; tags of other names come last, as they stood. Only the
/// list of tags is read as JSON.
pub fn reorder_openapi_tags(json: &str, tag_order: &[&str]) -> (r: String)
    ensures
        r@ == reordered_description(json@, tag_order@.map_values(|n: &str| n@)),
{
    let before = before_marker(json, "\"tags\": [");
    let at = before.unicode_len();
    let total = json.unicode_len();
    proof {
        reveal_strlit("\"tags\": [");
        assert(tags_marker().len() == 9);
    }
    if at == total {
        proof {
            if exists|k: int| occurs_at(json@, tags_marker(), k) {
                assert(occurs_at(json@, tags_marker(), at as int));
                assert(false);
            }
        }
        return json.to_owned();
    }
    proof {
        if !(exists|k: int| occurs_at(json@, tags_marker(), k)) {
            assert(before@ == json@);
            assert(false);
        }
        assert(is_first_occurrence(json@, tags_marker(), at as int));
        lemma_first_occurrence(json@, tags_marker(), at as int);
    }
    let start = at + 8;
    match closing_bracket(json, start + 1) {
        Some(end) => {
            let list = json.substring_char(start, end);
            match parse_array(list) {
                Some(tags) => {
                    let ordered = reorder(tags, tag_order);
                    let written = value_to_text(&value_list(ordered));
                    let mut out = json.substring_char(0, start).to_owned();
                    out.append(written.as_str());
                    out.append(json.substring_char(end, total));
                    proof {
                        assert(json@.subrange(0, start as int) =~= json@.take(start as int));
                        assert(json@.subrange(end as int, total as int) =~= json@.skip(
                            end as int,
                        ));
                    }
                    out
                },
                None => json.to_owned(),
            }
        },
        None => json.to_owned(),
    }
}

/// Where a tag of the name stands from `from` on, the first one is found,
/// and nothing is found only where none stands there.
pub proof fn lemma_tag_position(tags: Seq<JsonView>, name: Seq<char>, from: int)
    requires
        0 <= from,
    ensures
        match tag_position(tags, name, from) {
            Some(at) => from <= at < tags.len() && text_under(tags[at], "name"@) == Some(name)
                && forall|j: int| from <= j < at ==> text_under(tags[j], "name"@) != Some(name),
            None => forall|j: int| from <= j < tags.len() ==> text_under(tags[j], "name"@) != Some(
                name,
            ),
        },
    decreases tags.len() - from,
{
    if from < tags.len() && text_under(tags[from], "name"@) != Some(name) {
        lemma_tag_position(tags, name, from + 1);
    }
}

/// Reordering brings no tag in that was not there.
pub proof fn lemma_reordered_keeps(tags: Seq<JsonView>, order: Seq<Seq<char>>)
    ensures
        forall|x: JsonView| reordered(tags, order).contains(x) ==> tags.contains(x),
    decreases order.len(),
{
    if order.len() > 0 {
        let rest = order.drop_first();
        match tag_position(tags, order.first(), 0) {
            Some(at) => {
                lemma_tag_position(tags, order.first(), 0);
                let left = tags.remove(at);
                lemma_reordered_keeps(left, rest);
                let found = reordered(tags, order);
                assert(found == seq![tags[at]] + reordered(left, rest));
                assert forall|x: JsonView| found.contains(x) implies tags.contains(x) by {
                    let k = choose|k: int| 0 <= k < found.len() && found[k] == x;
                    if k == 0 {
                        assert(tags[at] == x);
                    } else {
                        assert(reordered(left, rest)[k - 1] == x);
                        assert(reordered(left, rest).contains(x));
                        assert(left.contains(x));
                        let m = choose|m: int| 0 <= m < left.len() && left[m] == x;
                        if m < at {
                            assert(tags[m] == x);
                        } else {
                            assert(tags[m + 1] == x);
                        }
                    }
                }
            },
            None => {
                lemma_reordered_keeps(tags, rest);
            },
        }
    }
}

/// Tags that were put in an order stay as they are when they are put in
/// that order again.
pub proof fn lemma_reorder_twice(tags: Seq<JsonView>, order: Seq<Seq<char>>)
    ensures
        reordered(reordered(tags, order), order) == reordered(tags, order),
    decreases order.len(),
{
    if order.len() > 0 {
        let name = order.first();
        let rest = order.drop_first();
        let once = reordered(tags, order);
        lemma_tag_position(tags, name, 0);
        match tag_position(tags, name, 0) {
            Some(at) => {
                let left = tags.remove(at);
                let tail = reordered(left, rest);
                assert(once == seq![tags[at]] + tail);
                assert(once[0] == tags[at]);
                lemma_tag_position(once, name, 0);
                assert(tag_position(once, name, 0) == Some(0int));
                assert(once.remove(0) =~= tail);
                lemma_reorder_twice(left, rest);
                assert(reordered(once, order) == seq![once[0]] + reordered(once.remove(0), rest));
            },
            None => {
                assert(once == reordered(tags, rest));
                lemma_reordered_keeps(tags, rest);
                lemma_tag_position(once, name, 0);
                if tag_position(once, name, 0) is Some {
                    let p = tag_position(once, name, 0)->0;
                    assert(once.contains(once[p]));
                    assert(tags.contains(once[p]));
                    let m = choose|m: int| 0 <= m < tags.len() && tags[m] == once[p];
                    assert(text_under(tags[m], "name"@) == Some(name));
                }
                lemma_reorder_twice(tags, rest);
                assert(reordered(once, order) == reordered(once, rest));
            },
        }
    }
}

} // verus!
