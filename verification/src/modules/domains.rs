//! The diff engine: additions, deletions and field-level changes between two
//! snapshots of one provider.

use vstd::prelude::*;
use vstd::string::*;
use crate::json::{distinct_keys, is_nonzero_number, Json, JsonObject, JsonView};
use crate::rendering::{debug_pair_text, debug_text};
use crate::text::{
    bool_str, bool_text, is_true_text, lemma_line_feeds_add, lemma_line_feeds_none,
    lemma_trim_line, line_feeds, reads_true, text_views, trim_newlines, trimmed_of_newlines,
};
use crate::models::domain::{domain_views, entry_views, field_views, Domain, DomainView};
use crate::models::notification::{draft_views, DraftView, NotificationDraft};
use crate::order::{is_strictly_ascending, lemma_ascending_unique, sorted_distinct};
use crate::seqs::{lemma_filter_none, lemma_filter_step, lemma_map_push};

verus! {

/// A changed field as it is held: the key, then the old and the new value.
pub type Change = (String, (Json, Json));

/// A changed field: the key, then the old and the new value.
pub type ChangeView = (Seq<char>, (JsonView, JsonView));

/// The views of some changed fields, in order.
pub open spec fn change_views(changes: Seq<Change>) -> Seq<ChangeView> {
    changes.map_values(|c: Change| (c.0@, (c.1.0@, c.1.1@)))
}

/// The views of some changed records, each with its changed fields.
pub open spec fn changed_views(changed: Seq<(Domain, Vec<Change>)>) -> Seq<
    (DomainView, Seq<ChangeView>),
> {
    changed.map_values(|c: (Domain, Vec<Change>)| (c.0@, change_views(c.1@)))
}

/// The two fields that the store manages, which never count as a change.
pub open spec fn is_ignored_key(key: Seq<char>) -> bool {
    key == "created_at"@ || key == "updated_at"@
}

/// Every field of the canonical form under its key, with its value in `pre`
/// and its value in `post`.
pub open spec fn paired_fields(pre: DomainView, post: DomainView) -> Seq<ChangeView> {
    Seq::new(
        field_views(post).len(),
        |i: int| (field_views(post)[i].0, (field_views(pre)[i].1, field_views(post)[i].1)),
    )
}

/// Whether a field counts as changed: it is not ignored, and its two values
/// differ.
pub open spec fn is_change() -> spec_fn(ChangeView) -> bool {
    |c: ChangeView| !is_ignored_key(c.0) && c.1.0 != c.1.1
}

/// The changed fields between two records of one domain.
pub open spec fn field_changes(pre: DomainView, post: DomainView) -> Seq<ChangeView> {
    paired_fields(pre, post).filter(is_change())
}

/// Whether some record bears the name.
pub open spec fn has_name(records: Seq<DomainView>, name: Seq<char>) -> bool {
    exists|i: int| 0 <= i < records.len() && (#[trigger] records[i]).name == name
}

/// Whether `i` is the place of the first record that bears the name.
pub open spec fn is_first_named(records: Seq<DomainView>, name: Seq<char>, i: int) -> bool {
    &&& 0 <= i < records.len()
    &&& records[i].name == name
    &&& forall|j: int| 0 <= j < i ==> (#[trigger] records[j]).name != name
}

/// The first record that bears the name.
pub open spec fn first_named(records: Seq<DomainView>, name: Seq<char>) -> DomainView {
    records[choose|i: int| is_first_named(records, name, i)]
}

/// The changed fields of a record of the new snapshot against the first
/// record of its name in the old one: none where the old one has no such
/// record.
pub open spec fn changes_against(pre: Seq<DomainView>, d: DomainView) -> Seq<ChangeView> {
    if has_name(pre, d.name) {
        field_changes(first_named(pre, d.name), d)
    } else {
        Seq::empty()
    }
}

/// Whether a record of the new snapshot is new: no old record bears its name.
pub open spec fn is_addition(pre: Seq<DomainView>) -> spec_fn(DomainView) -> bool {
    |d: DomainView| !has_name(pre, d.name)
}

/// Whether a record of the old snapshot is gone: no new record bears its
/// name.
pub open spec fn is_deletion(post: Seq<DomainView>) -> spec_fn(DomainView) -> bool {
    |d: DomainView| !has_name(post, d.name)
}

/// Whether a record of the new snapshot has changed fields.
pub open spec fn is_changed(pre: Seq<DomainView>) -> spec_fn(DomainView) -> bool {
    |d: DomainView| changes_against(pre, d).len() > 0
}

/// A record with its changed fields.
pub open spec fn with_changes(pre: Seq<DomainView>) -> spec_fn(DomainView) -> (
    DomainView,
    Seq<ChangeView>,
) {
    |d: DomainView| (d, changes_against(pre, d))
}

/// The name of a record.
pub open spec fn name_of() -> spec_fn(DomainView) -> Seq<char> {
    |d: DomainView| d.name
}

/// The additions: the new records whose name no old record bears, in the
/// order of the new snapshot.
pub open spec fn additions_of(pre: Seq<DomainView>, post: Seq<DomainView>) -> Seq<DomainView> {
    post.filter(is_addition(pre))
}

/// The deletions: the names of the old records whose name no new record
/// bears, in the order of the old snapshot.
pub open spec fn deletions_of(pre: Seq<DomainView>, post: Seq<DomainView>) -> Seq<Seq<char>> {
    pre.filter(is_deletion(post)).map_values(name_of())
}

/// The changes: the new records with changed fields, each with those fields,
/// in the order of the new snapshot.
pub open spec fn changes_of(pre: Seq<DomainView>, post: Seq<DomainView>) -> Seq<
    (DomainView, Seq<ChangeView>),
> {
    post.filter(is_changed(pre)).map_values(with_changes(pre))
}

/// Whether `key` is one of the two ignored keys.
pub fn ignored_key(key: &str) -> (r: bool)
    ensures
        r == is_ignored_key(key@),
{
    key.eq("created_at") || key.eq("updated_at")
}

/// The place of the first record that bears the name, if there is one.
pub fn find_named(records: &[Domain], name: &str) -> (r: Option<usize>)
    ensures
        match r {
            Some(i) => is_first_named(domain_views(records@), name@, i as int),
            None => !has_name(domain_views(records@), name@),
        },
{
    let mut i: usize = 0;
    while i < records.len()
        invariant
            i <= records.len(),
            forall|j: int| 0 <= j < i ==> (#[trigger] domain_views(records@)[j]).name != name@,
        decreases records.len() - i,
    {
        if records[i].name.as_str().eq(name) {
            return Some(i);
        }
        i += 1;
    }
    None
}

/// `first_named` is the record at the first place.
pub proof fn lemma_first_named(records: Seq<DomainView>, name: Seq<char>, i: int)
    requires
        is_first_named(records, name, i),
    ensures
        has_name(records, name),
        first_named(records, name) == records[i],
{
    let k = choose|k: int| is_first_named(records, name, k);
    assert(is_first_named(records, name, k));
    if k < i {
        assert(records[k].name != name);
    }
    if i < k {
        assert(records[i].name != name);
    }
}

/// The changed fields between two records of one domain: every field of the
/// canonical form whose key is not ignored and whose value differs, with the
/// old and the new value.
pub fn changed_fields(pre: &Domain, post: &Domain) -> (r: Vec<Change>)
    ensures
        change_views(r@) == field_changes(pre@, post@),
{
    let old_fields = pre.fields();
    let new_fields = post.fields();
    let ghost pairs = paired_fields(pre@, post@);
    let mut out: Vec<Change> = Vec::new();
    let mut i: usize = 0;
    assert(old_fields@.len() == entry_views(old_fields@).len());
    assert(new_fields@.len() == entry_views(new_fields@).len());
    assert(change_views(out@) =~= Seq::<ChangeView>::empty());
    proof {
        lemma_filter_none(pairs, is_change());
    }
    while i < new_fields.len()
        invariant
            i <= new_fields.len(),
            new_fields.len() == pairs.len(),
            old_fields.len() == pairs.len(),
            pairs == paired_fields(pre@, post@),
            entry_views(old_fields@) == field_views(pre@),
            entry_views(new_fields@) == field_views(post@),
            change_views(out@) == pairs.take(i as int).filter(is_change()),
        decreases new_fields.len() - i,
    {
        let ghost before = out@;
        proof {
            lemma_filter_step(pairs, i as int, is_change());
            assert(entry_views(old_fields@)[i as int] == (
                old_fields[i as int].0@,
                old_fields[i as int].1@,
            ));
            assert(entry_views(new_fields@)[i as int] == (
                new_fields[i as int].0@,
                new_fields[i as int].1@,
            ));
        }
        if !ignored_key(new_fields[i].0.as_str()) && !old_fields[i].1.same(&new_fields[i].1) {
            out.push(
                (new_fields[i].0.clone(), (old_fields[i].1.clone(), new_fields[i].1.clone())),
            );
            assert(change_views(out@) =~= change_views(before).push(pairs[i as int]));
        }
        i += 1;
    }
    assert(pairs.take(i as int) =~= pairs);
    out
}

/// Compares the snapshot that was stored (`pre`) with the one just ingested
/// (`post`), joining records by name. Returns the additions, the names of
/// the deletions, and the changed records each with its changed fields.
pub fn diff_changes(pre: &[Domain], post: &[Domain]) -> (r: (
    Vec<Domain>,
    Vec<String>,
    Vec<(Domain, Vec<Change>)>,
))
    ensures
        domain_views(r.0@) == additions_of(domain_views(pre@), domain_views(post@)),
        text_views(r.1@) == deletions_of(domain_views(pre@), domain_views(post@)),
        changed_views(r.2@) == changes_of(domain_views(pre@), domain_views(post@)),
{
    let ghost old = domain_views(pre@);
    let ghost new = domain_views(post@);
    let mut additions: Vec<Domain> = Vec::new();
    let mut deletions: Vec<String> = Vec::new();
    let mut changes: Vec<(Domain, Vec<Change>)> = Vec::new();

    assert(domain_views(additions@) =~= Seq::<DomainView>::empty());
    assert(text_views(deletions@) =~= Seq::<Seq<char>>::empty());
    assert(changed_views(changes@) =~= Seq::<(DomainView, Seq<ChangeView>)>::empty());
    proof {
        lemma_filter_none(new, is_addition(old));
        lemma_filter_none(new, is_changed(old));
        lemma_filter_none(old, is_deletion(new));
        assert(new.take(0).filter(is_changed(old)).map_values(with_changes(old))
            =~= Seq::<(DomainView, Seq<ChangeView>)>::empty());
        assert(old.take(0).filter(is_deletion(new)).map_values(name_of())
            =~= Seq::<Seq<char>>::empty());
    }

    let mut i: usize = 0;
    while i < post.len()
        invariant
            i <= post.len(),
            old == domain_views(pre@),
            new == domain_views(post@),
            domain_views(additions@) == new.take(i as int).filter(is_addition(old)),
            changed_views(changes@) == new.take(i as int).filter(is_changed(old)).map_values(
                with_changes(old),
            ),
        decreases post.len() - i,
    {
        let ghost added = additions@;
        let ghost changed = changes@;
        let domain = &post[i];
        proof {
            lemma_filter_step(new, i as int, is_addition(old));
            lemma_filter_step(new, i as int, is_changed(old));
            lemma_map_push(new.take(i as int).filter(is_changed(old)), domain@, with_changes(old));
            assert(new[i as int] == domain@);
        }
        match find_named(pre, domain.name.as_str()) {
            Some(at) => {
                proof {
                    lemma_first_named(old, domain@.name, at as int);
                    assert(old[at as int] == pre[at as int]@);
                }
                let change = changed_fields(&pre[at], domain);
                assert(change_views(change@) == changes_against(old, domain@));
                if change.len() > 0 {
                    changes.push((domain.clone(), change));
                    assert(changed_views(changes@) =~= changed_views(changed).push(
                        (domain@, changes_against(old, domain@)),
                    ));
                }
            },
            None => {
                additions.push(domain.clone());
                assert(domain_views(additions@) =~= domain_views(added).push(domain@));
            },
        }
        i += 1;
    }
    assert(new.take(i as int) =~= new);

    let mut k: usize = 0;
    while k < pre.len()
        invariant
            k <= pre.len(),
            old == domain_views(pre@),
            new == domain_views(post@),
            text_views(deletions@) == old.take(k as int).filter(is_deletion(new)).map_values(
                name_of(),
            ),
        decreases pre.len() - k,
    {
        let ghost deleted = deletions@;
        let domain = &pre[k];
        proof {
            lemma_filter_step(old, k as int, is_deletion(new));
            lemma_map_push(old.take(k as int).filter(is_deletion(new)), domain@, name_of());
            assert(old[k as int] == domain@);
        }
        if find_named(post, domain.name.as_str()).is_none() {
            deletions.push(domain.name.clone());
            assert(text_views(deletions@) =~= text_views(deleted).push(domain@.name));
        }
        k += 1;
    }
    assert(old.take(k as int) =~= old);

    (additions, deletions, changes)
}

/// The permissive reading of a value as a flag: a boolean as it is, a number
/// when it is not zero, a text when it reads `true` in whatever case, and
/// `false` for anything else.
pub open spec fn coerce_bool(value: JsonView) -> bool {
    match value {
        JsonView::Bool(b) => b,
        JsonView::Number(n) => is_nonzero_number(n),
        JsonView::String(s) => is_true_text(s),
        _ => false,
    }
}

/// Reads a value as a flag.
pub fn bool_from_value(value: &Json) -> (r: bool)
    ensures
        r == coerce_bool(value@),
{
    match value {
        Json::Bool(b) => *b,
        Json::Number(n) => n.is_nonzero(),
        Json::String(s) => reads_true(s.as_str()),
        _ => false,
    }
}

/// The line for a flag that changed, with the line feed that ends it.
pub open spec fn flag_line(label: Seq<char>, before: JsonView, after: JsonView) -> Seq<char> {
    " - "@ + label + " Changed: "@ + bool_text(coerce_bool(before)) + " => "@ + bool_text(
        coerce_bool(after),
    ) + "\n"@
}

/// The line for any other field that changed: the key, then the old and the
/// new value as `Debug` writes the pair.
pub open spec fn plain_line(key: Seq<char>, before: JsonView, after: JsonView) -> Seq<char> {
    " - "@ + key + ": "@ + debug_pair_text(before, after)
}

/// The line for a changed key of the metadata, with the line feed that ends
/// it.
pub open spec fn sub_key_line(key: Seq<char>, before: JsonView, after: JsonView) -> Seq<char> {
    if key == "status"@ {
        flag_line("Status"@, before, after)
    } else if key == "security_lock"@ {
        flag_line("Security Lock"@, before, after)
    } else {
        plain_line(key, before, after) + "\n"@
    }
}

/// The value under a key, and null where the key is missing.
pub open spec fn value_or_null(object: Map<Seq<char>, JsonView>, key: Seq<char>) -> JsonView {
    if object.contains_key(key) {
        object[key]
    } else {
        JsonView::Null
    }
}

/// What one key of the metadata adds to the message: its line where its two
/// values differ, and nothing where they are equal.
pub open spec fn sub_key_piece(
    key: Seq<char>,
    before: Map<Seq<char>, JsonView>,
    after: Map<Seq<char>, JsonView>,
) -> Seq<char> {
    if value_or_null(before, key) != value_or_null(after, key) {
        sub_key_line(key, value_or_null(before, key), value_or_null(after, key))
    } else {
        Seq::empty()
    }
}

/// The pieces of some keys of the metadata, one after the other.
pub open spec fn sub_key_lines(
    keys: Seq<Seq<char>>,
    before: Map<Seq<char>, JsonView>,
    after: Map<Seq<char>, JsonView>,
) -> Seq<char>
    decreases keys.len(),
{
    if keys.len() == 0 {
        Seq::empty()
    } else {
        sub_key_lines(keys.drop_last(), before, after) + sub_key_piece(keys.last(), before, after)
    }
}

/// Whether `keys` are the keys of two objects together, each once, in
/// ascending order.
pub open spec fn is_union_keys(
    keys: Seq<Seq<char>>,
    before: Map<Seq<char>, JsonView>,
    after: Map<Seq<char>, JsonView>,
) -> bool {
    &&& is_strictly_ascending(keys)
    &&& forall|k: Seq<char>|
        keys.contains(k) <==> before.contains_key(k) || after.contains_key(k)
}

/// The keys of two objects together, each once, in ascending order.
pub open spec fn union_keys(
    before: Map<Seq<char>, JsonView>,
    after: Map<Seq<char>, JsonView>,
) -> Seq<Seq<char>> {
    choose|keys: Seq<Seq<char>>| is_union_keys(keys, before, after)
}

/// The lines for two metadata objects: one for each key of either whose
/// two values differ, the keys in ascending order. A key that one of the
/// two lacks has the value null there.
pub open spec fn metadata_lines(
    before: Map<Seq<char>, JsonView>,
    after: Map<Seq<char>, JsonView>,
) -> Seq<char> {
    sub_key_lines(union_keys(before, after), before, after)
}

/// The line for one changed field, without line feeds at either end.
pub open spec fn change_line(change: ChangeView) -> Seq<char> {
    let key = change.0;
    if key == "metadata"@ && change.1.0 is Object && change.1.1 is Object {
        trim_newlines(metadata_lines(change.1.0->Object_0, change.1.1->Object_0))
    } else if key == "ext_auto_renew"@ {
        trim_newlines(flag_line("Auto Renew"@, change.1.0, change.1.1))
    } else {
        trim_newlines(plain_line(key, change.1.0, change.1.1))
    }
}

/// The lines of some changed fields, each ended by a line feed.
pub open spec fn lines_text(changes: Seq<ChangeView>) -> Seq<char>
    decreases changes.len(),
{
    if changes.len() == 0 {
        Seq::empty()
    } else {
        lines_text(changes.drop_last()) + change_line(changes.last()) + "\n"@
    }
}

/// The message for a change set: one line for each changed field, in the
/// order of the set, without line feeds at either end.
pub open spec fn human_text(changes: Seq<ChangeView>) -> Seq<char> {
    trim_newlines(lines_text(changes))
}

/// One key more adds its piece.
pub proof fn lemma_sub_key_lines_push(
    keys: Seq<Seq<char>>,
    key: Seq<char>,
    before: Map<Seq<char>, JsonView>,
    after: Map<Seq<char>, JsonView>,
)
    ensures
        sub_key_lines(keys.push(key), before, after) == sub_key_lines(keys, before, after)
            + sub_key_piece(key, before, after),
{
    assert(keys.push(key).drop_last() =~= keys);
    assert(sub_key_lines(keys.push(key), before, after) == sub_key_lines(
        keys.push(key).drop_last(),
        before,
        after,
    ) + sub_key_piece(keys.push(key).last(), before, after));
}

fn push_flag_line(out: &mut String, label: &str, before: &Json, after: &Json)
    ensures
        final(out)@ == old(out)@ + flag_line(label@, before@, after@),
{
    let ghost start = out@;
    out.append(" - ");
    out.append(label);
    out.append(" Changed: ");
    out.append(bool_str(bool_from_value(before)));
    out.append(" => ");
    out.append(bool_str(bool_from_value(after)));
    out.append("\n");
    assert(out@ =~= start + flag_line(label@, before@, after@));
}

/// The line for a field under its key, given the text of its two values:
/// a dash, the key, a colon, the text.
pub fn plain_line_of(key: &str, pair: &str) -> (r: String)
    ensures
        r@ == " - "@ + key@ + ": "@ + pair@,
{
    let mut out = " - ".to_owned();
    out.append(key);
    out.append(": ");
    out.append(pair);
    out
}

fn push_plain_line(out: &mut String, key: &str, before: &Json, after: &Json)
    ensures
        final(out)@ == old(out)@ + plain_line(key@, before@, after@),
{
    let pair = debug_text(before, after);
    let line = plain_line_of(key, pair.as_str());
    out.append(line.as_str());
}

fn push_sub_key_piece(
    out: &mut String,
    key: &str,
    before: &Json,
    after: &Json,
    Ghost(old_map): Ghost<Map<Seq<char>, JsonView>>,
    Ghost(new_map): Ghost<Map<Seq<char>, JsonView>>,
)
    requires
        before@ == value_or_null(old_map, key@),
        after@ == value_or_null(new_map, key@),
    ensures
        final(out)@ == old(out)@ + sub_key_piece(key@, old_map, new_map),
{
    let ghost start = out@;
    if before.same(after) {
        assert(out@ =~= start + sub_key_piece(key@, old_map, new_map));
    } else if key.eq("status") {
        push_flag_line(out, "Status", before, after);
    } else if key.eq("security_lock") {
        push_flag_line(out, "Security Lock", before, after);
    } else {
        push_plain_line(out, key, before, after);
        out.append("\n");
        assert(out@ =~= start + sub_key_piece(key@, old_map, new_map));
    }
}

fn value_or<'a>(object: &'a JsonObject, key: &str, null: &'a Json) -> (r: &'a Json)
    requires
        null@ == JsonView::Null,
    ensures
        r@ == value_or_null(object@, key@),
{
    match object.get(key) {
        Some(value) => value,
        None => null,
    }
}

fn keys_of_both(before: &JsonObject, after: &JsonObject) -> (r: Vec<String>)
    ensures
        is_union_keys(text_views(r@), before@, after@),
{
    let mut all: Vec<String> = Vec::new();
    let n = before.len();
    let m = after.len();
    let mut i: usize = 0;
    while i < n
        invariant
            i <= n,
            n == before.keys().len(),
            all.len() == i,
            forall|j: int| 0 <= j < i ==> (#[trigger] all[j])@ == before.keys()[j],
        decreases n - i,
    {
        all.push(before.key(i).clone());
        i += 1;
    }
    let mut k: usize = 0;
    while k < m
        invariant
            k <= m,
            n == before.keys().len(),
            m == after.keys().len(),
            all.len() == n + k,
            forall|j: int| 0 <= j < n ==> (#[trigger] all[j])@ == before.keys()[j],
            forall|j: int| 0 <= j < k ==> (#[trigger] all[n + j])@ == after.keys()[j],
        decreases m - k,
    {
        all.push(after.key(k).clone());
        k += 1;
    }
    let sorted = sorted_distinct(&all);
    proof {
        before.lemma_view();
        after.lemma_view();
        let views = text_views(all@);
        assert forall|key: Seq<char>| views.contains(key) <==> before@.contains_key(key)
            || after@.contains_key(key) by {
            if views.contains(key) {
                let j = choose|j: int| 0 <= j < views.len() && views[j] == key;
                assert(views[j] == all[j]@);
                if j < n {
                    assert(before.keys()[j] == key);
                } else {
                    assert(all[n + (j - n)]@ == after.keys()[j - n]);
                    assert(after.keys()[j - n] == key);
                }
            }
            if before@.contains_key(key) {
                let j = before.keys().index_of(key);
                assert(before.keys()[j] == key);
                assert(views[j] == all[j]@);
            }
            if after@.contains_key(key) {
                let j = after.keys().index_of(key);
                assert(after.keys()[j] == key);
                assert(views[n + j] == all[n + j]@);
            }
        }
    }
    sorted
}

fn metadata_block(before: &JsonObject, after: &JsonObject) -> (r: String)
    ensures
        r@ == metadata_lines(before@, after@),
{
    let null = Json::Null;
    let keys = keys_of_both(before, after);
    let ghost views = text_views(keys@);
    proof {
        let chosen = union_keys(before@, after@);
        assert(is_union_keys(chosen, before@, after@));
        lemma_ascending_unique(views, chosen);
    }
    let mut out = String::new();
    let mut i: usize = 0;
    assert(views.take(0) =~= Seq::<Seq<char>>::empty());
    assert(out@ =~= sub_key_lines(views.take(0), before@, after@));
    while i < keys.len()
        invariant
            i <= keys.len(),
            views == text_views(keys@),
            null@ == JsonView::Null,
            out@ == sub_key_lines(views.take(i as int), before@, after@),
        decreases keys.len() - i,
    {
        proof {
            assert(views.take(i + 1) =~= views.take(i as int).push(views[i as int]));
            assert(views[i as int] == keys[i as int]@);
            lemma_sub_key_lines_push(views.take(i as int), views[i as int], before@, after@);
        }
        let key = keys[i].as_str();
        push_sub_key_piece(
            &mut out,
            key,
            value_or(before, key, &null),
            value_or(after, key, &null),
            Ghost(before@),
            Ghost(after@),
        );
        i += 1;
    }
    assert(views.take(i as int) =~= views);
    out
}

/// The view of a changed field.
pub open spec fn change_view(change: Change) -> ChangeView {
    (change.0@, (change.1.0@, change.1.1@))
}

/// Whether a changed field is written on one line: it is not the metadata
/// between two objects, and its key holds no line feed.
pub open spec fn is_plain_change(change: ChangeView) -> bool {
    &&& !(change.0 == "metadata"@ && change.1.0 is Object && change.1.1 is Object)
    &&& !change.0.contains('\n')
}

/// Whether each of the changed fields is written on one line.
pub open spec fn is_plain_set(changes: Seq<ChangeView>) -> bool {
    forall|k: int| 0 <= k < changes.len() ==> is_plain_change(#[trigger] changes[k])
}

fn change_line_of(change: &Change) -> (r: String)
    ensures
        r@ == change_line(change_view(*change)),
        is_plain_change(change_view(*change)) ==> r@.len() > 0 && !r@.contains('\n'),
{
    let key = change.0.as_str();
    if key.eq("metadata") {
        match &change.1.0 {
            Json::Object(before) => match &change.1.1 {
                Json::Object(after) => {
                    let block = metadata_block(before, after);
                    return trimmed_of_newlines(block.as_str());
                },
                _ => {},
            },
            _ => {},
        }
    }
    if key.eq("ext_auto_renew") {
        let mut line = " - ".to_owned();
        line.append("Auto Renew");
        line.append(" Changed: ");
        line.append(bool_str(bool_from_value(&change.1.0)));
        line.append(" => ");
        line.append(bool_str(bool_from_value(&change.1.1)));
        proof {
            reveal_strlit(" - ");
            reveal_strlit("Auto Renew");
            reveal_strlit(" Changed: ");
            reveal_strlit("true");
            reveal_strlit("false");
            reveal_strlit(" => ");
            reveal_strlit("\n");
            assert("\n"@ =~= seq!['\n']);
            assert(line@[0] == ' ');
            assert(!line@.contains('\n'));
            assert(flag_line("Auto Renew"@, change.1.0@, change.1.1@) =~= line@.push('\n'));
            lemma_trim_line(line@);
        }
        line
    } else {
        let pair = debug_text(&change.1.0, &change.1.1);
        let line = plain_line_of(key, pair.as_str());
        proof {
            reveal_strlit(" - ");
            reveal_strlit(": ");
            assert(line@[0] == ' ');
            assert(line@ =~= plain_line(key@, change.1.0@, change.1.1@));
            if !key@.contains('\n') {
                assert forall|i: int| 0 <= i < line@.len() implies line@[i] != '\n' by {
                    if i < 3 {
                    } else if i < 3 + key@.len() {
                        assert(line@[i] == key@[i - 3]);
                        assert(key@.contains(key@[i - 3]));
                    } else if i < 5 + key@.len() {
                    } else {
                        assert(line@[i] == pair@[i - 5 - key@.len()]);
                        assert(pair@.contains(pair@[i - 5 - key@.len()]));
                    }
                }
                lemma_trim_line(line@);
            }
        }
        trimmed_of_newlines(line.as_str())
    }
}

/// The message for a change set, read in place.
pub fn human_message(change: &Vec<Change>) -> (r: String)
    ensures
        r@ == human_text(change_views(change@)),
        change@.len() > 0 && is_plain_set(change_views(change@)) ==> line_feeds(r@) + 1
            == change@.len(),
{
    let ghost views = change_views(change@);
    let mut human = String::new();
    let mut i: usize = 0;
    assert(views.take(0) =~= Seq::<ChangeView>::empty());
    assert(human@ =~= lines_text(views.take(0)));
    while i < change.len()
        invariant
            i <= change.len(),
            views == change_views(change@),
            human@ == lines_text(views.take(i as int)),
            is_plain_set(views) ==> line_feeds(human@) == i,
            is_plain_set(views) && i > 0 ==> human@.len() >= 2 && human@[0] != '\n'
                && human@.last() == '\n' && human@[human@.len() - 2] != '\n',
        decreases change.len() - i,
    {
        let ghost before = human@;
        let line = change_line_of(&change[i]);
        human.append(line.as_str());
        human.append("\n");
        proof {
            let upto = views.take(i + 1);
            assert(upto.drop_last() =~= views.take(i as int));
            assert(upto.last() == change_view(change@[i as int]));
            assert(views[i as int] == change_view(change@[i as int]));
            assert(lines_text(upto) == lines_text(upto.drop_last()) + change_line(upto.last())
                + "\n"@);
            assert(human@ =~= lines_text(upto));
            if is_plain_set(views) {
                reveal_strlit("\n");
                assert("\n"@ =~= seq!['\n']);
                assert(is_plain_change(views[i as int]));
                lemma_line_feeds_none(line@);
                lemma_line_feeds_add(before, line@);
                lemma_line_feeds_add(before + line@, "\n"@);
                let feed = "\n"@;
                assert(feed.len() == 1 && feed.last() == '\n');
                assert(feed.drop_last() =~= Seq::<char>::empty());
                assert(line_feeds(feed.drop_last()) == 0);
                assert(line_feeds(feed) == line_feeds(feed.drop_last()) + 1);
                assert(human@ =~= (before + line@).push('\n'));
                assert(line@.contains(line@[0]));
                assert(line@.contains(line@.last()));
                assert(human@[human@.len() - 2] == line@.last());
                if i > 0 {
                    assert(human@[0] == before[0]);
                } else {
                    assert(human@[0] == line@[0]);
                }
            }
        }
        i += 1;
    }
    assert(views.take(i as int) =~= views);
    proof {
        if change@.len() > 0 && is_plain_set(views) {
            let body = human@.drop_last();
            assert(human@ =~= body.push('\n'));
            assert(body.last() == human@[human@.len() - 2]);
            assert(body[0] == human@[0]);
            lemma_trim_line(body);
            assert(line_feeds(human@) == line_feeds(body) + 1);
        }
    }
    trimmed_of_newlines(human.as_str())
}

/// The message for the changed fields of one domain: a line for each field,
/// in the order of the change set. A change of the metadata between two
/// objects gives a line for each key whose value differs, the keys in
/// ascending order; `status` and `security_lock` there, and
/// `ext_auto_renew`, are written as flags. The name of the domain is no
/// part of the message. Fields that are written on one line each give as
/// many lines as there are fields.
pub fn diff_to_human(domain: String, change: Vec<Change>) -> (r: String)
    ensures
        r@ == human_text(change_views(change@)),
        change@.len() > 0 && is_plain_set(change_views(change@)) ==> line_feeds(r@) + 1
            == change@.len(),
{
    human_message(&change)
}

/// The draft for a domain that is gone.
pub open spec fn deletion_draft() -> spec_fn(Seq<char>) -> DraftView {
    |name: Seq<char>| DraftView { domain: name, event: "delete"@, message: "Domain deleted"@ }
}

/// The draft for a domain that is new.
pub open spec fn addition_draft() -> spec_fn(DomainView) -> DraftView {
    |d: DomainView| DraftView { domain: d.name, event: "add"@, message: "New domain detected"@ }
}

/// The draft for a domain that changed, with the message for its change
/// set.
pub open spec fn change_draft() -> spec_fn((DomainView, Seq<ChangeView>)) -> DraftView {
    |c: (DomainView, Seq<ChangeView>)|
        DraftView { domain: c.0.name, event: "change"@, message: human_text(c.1) }
}

/// The drafts for what a diff found: the deletions first, then the
/// additions, then the changes, each in their order.
pub open spec fn drafts_of(
    additions: Seq<DomainView>,
    deletions: Seq<Seq<char>>,
    changes: Seq<(DomainView, Seq<ChangeView>)>,
) -> Seq<DraftView> {
    deletions.map_values(deletion_draft()) + additions.map_values(addition_draft())
        + changes.map_values(change_draft())
}

/// The drafts for one reconciliation between two snapshots.
pub open spec fn notifications_of(pre: Seq<DomainView>, post: Seq<DomainView>) -> Seq<DraftView> {
    drafts_of(additions_of(pre, post), deletions_of(pre, post), changes_of(pre, post))
}

/// The notifications to store for what a diff found: one for every
/// deletion, every addition and every change.
pub fn plan_notifications(
    additions: &Vec<Domain>,
    deletions: &Vec<String>,
    changes: &Vec<(Domain, Vec<Change>)>,
) -> (r: Vec<NotificationDraft>)
    ensures
        draft_views(r@) == drafts_of(
            domain_views(additions@),
            text_views(deletions@),
            changed_views(changes@),
        ),
{
    let ghost gone = text_views(deletions@);
    let ghost added = domain_views(additions@);
    let ghost changed = changed_views(changes@);
    let mut out: Vec<NotificationDraft> = Vec::new();
    let mut i: usize = 0;
    assert(draft_views(out@) =~= gone.take(0).map_values(deletion_draft()));
    while i < deletions.len()
        invariant
            i <= deletions.len(),
            gone == text_views(deletions@),
            draft_views(out@) == gone.take(i as int).map_values(deletion_draft()),
        decreases deletions.len() - i,
    {
        let ghost before = out@;
        out.push(
            NotificationDraft {
                domain: deletions[i].clone(),
                event: "delete".to_owned(),
                message: "Domain deleted".to_owned(),
            },
        );
        proof {
            assert(gone[i as int] == deletions[i as int]@);
            assert(gone.take(i + 1) =~= gone.take(i as int).push(gone[i as int]));
            assert(draft_views(out@) =~= draft_views(before).push(
                deletion_draft()(gone[i as int]),
            ));
            assert(draft_views(out@) =~= gone.take(i + 1).map_values(deletion_draft()));
        }
        i += 1;
    }
    assert(gone.take(i as int) =~= gone);
    let ghost first = draft_views(out@);
    let mut j: usize = 0;
    assert(draft_views(out@) =~= first + added.take(0).map_values(addition_draft()));
    while j < additions.len()
        invariant
            j <= additions.len(),
            added == domain_views(additions@),
            first == gone.map_values(deletion_draft()),
            draft_views(out@) == first + added.take(j as int).map_values(addition_draft()),
        decreases additions.len() - j,
    {
        let ghost before = out@;
        out.push(
            NotificationDraft {
                domain: additions[j].name.clone(),
                event: "add".to_owned(),
                message: "New domain detected".to_owned(),
            },
        );
        proof {
            assert(added[j as int] == additions[j as int]@);
            assert(added.take(j + 1) =~= added.take(j as int).push(added[j as int]));
            assert(draft_views(out@) =~= draft_views(before).push(
                addition_draft()(added[j as int]),
            ));
            assert(draft_views(out@) =~= first + added.take(j + 1).map_values(addition_draft()));
        }
        j += 1;
    }
    assert(added.take(j as int) =~= added);
    let ghost second = draft_views(out@);
    let mut k: usize = 0;
    assert(draft_views(out@) =~= second + changed.take(0).map_values(change_draft()));
    while k < changes.len()
        invariant
            k <= changes.len(),
            changed == changed_views(changes@),
            second == gone.map_values(deletion_draft()) + added.map_values(addition_draft()),
            draft_views(out@) == second + changed.take(k as int).map_values(change_draft()),
        decreases changes.len() - k,
    {
        let ghost before = out@;
        let message = human_message(&changes[k].1);
        out.push(
            NotificationDraft {
                domain: changes[k].0.name.clone(),
                event: "change".to_owned(),
                message,
            },
        );
        proof {
            assert(changed[k as int] == (changes[k as int].0@, change_views(changes[k as int].1@)));
            assert(changed.take(k + 1) =~= changed.take(k as int).push(changed[k as int]));
            assert(draft_views(out@) =~= draft_views(before).push(
                change_draft()(changed[k as int]),
            ));
            assert(draft_views(out@) =~= second + changed.take(k + 1).map_values(change_draft()));
        }
        k += 1;
    }
    assert(changed.take(k as int) =~= changed);
    out
}

/// One reconciliation of a provider, between what was stored of it (`pre`)
/// and what was just ingested (`post`): the notifications to store, for the
/// deletions, the additions and the changes that the diff finds, in that
/// order.
pub fn diff_provider(pre: &[Domain], post: &[Domain]) -> (r: Vec<NotificationDraft>)
    ensures
        draft_views(r@) == notifications_of(domain_views(pre@), domain_views(post@)),
{
    let (additions, deletions, changes) = diff_changes(pre, post);
    plan_notifications(&additions, &deletions, &changes)
}

} // verus!
