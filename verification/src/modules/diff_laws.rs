//! What holds of the diff engine on every pair of snapshots.

use vstd::prelude::*;
use crate::models::domain::{field_views, DomainView};
use crate::models::notification::DraftView;
use crate::modules::domains::{
    additions_of, changes_against, changes_of, deletions_of, field_changes, first_named, has_name,
    is_addition, is_change, is_changed, is_deletion, is_first_named, lemma_first_named, name_of,
    notifications_of, paired_fields, with_changes, ChangeView,
};
use crate::seqs::{lemma_filter_member, lemma_filter_nothing};

verus! {

/// What a run of the diff engine returns, as views.
pub ghost struct DiffView {
    pub additions: Seq<DomainView>,
    pub deletions: Seq<Seq<char>>,
    pub changes: Seq<(DomainView, Seq<ChangeView>)>,
}

/// Whether `found` is what the diff engine returns on the two snapshots.
pub open spec fn is_diff_of(found: DiffView, pre: Seq<DomainView>, post: Seq<DomainView>) -> bool {
    &&& found.additions == additions_of(pre, post)
    &&& found.deletions == deletions_of(pre, post)
    &&& found.changes == changes_of(pre, post)
}

/// Two runs on the same snapshots find the same additions, deletions and
/// changes.
pub proof fn lemma_diff_repeats(
    pre: Seq<DomainView>,
    post: Seq<DomainView>,
    first: DiffView,
    second: DiffView,
)
    requires
        is_diff_of(first, pre, post),
        is_diff_of(second, pre, post),
    ensures
        first == second,
{
}

/// Whether two records are alike in every field but the two that the store
/// manages.
pub open spec fn alike_but_store_fields(a: DomainView, b: DomainView) -> bool {
    &&& a.name == b.name
    &&& a.provider == b.provider
    &&& a.external_id == b.external_id
    &&& a.ext_expiry_at == b.ext_expiry_at
    &&& a.ext_registered_at == b.ext_registered_at
    &&& a.ext_auto_renew == b.ext_auto_renew
    &&& a.ext_whois_privacy == b.ext_whois_privacy
    &&& a.metadata == b.metadata
}

/// Two records that differ in `created_at` and `updated_at` alone have no
/// changed field.
pub proof fn lemma_store_fields_ignored(pre: DomainView, post: DomainView)
    requires
        alike_but_store_fields(pre, post),
    ensures
        field_changes(pre, post) == Seq::<ChangeView>::empty(),
{
    let pairs = paired_fields(pre, post);
    assert(field_views(post).len() == 10);
    assert(field_views(pre).len() == 10);
    assert forall|i: int| 0 <= i < pairs.len() implies !is_change()(#[trigger] pairs[i]) by {
        if i == 0 {
        } else if i == 1 {
        } else if i == 2 {
        } else if i == 3 {
        } else if i == 4 {
        } else if i == 5 {
        } else if i == 6 {
        } else if i == 7 {
        } else if i == 8 {
        } else {
            assert(i == 9);
        }
    }
    lemma_filter_nothing(pairs, is_change());
}

/// A record that the old snapshot holds alike but for `created_at` and
/// `updated_at`, as the first of its name, is not among the changes.
pub proof fn lemma_store_change_unreported(pre: Seq<DomainView>, post: Seq<DomainView>, i: int)
    requires
        0 <= i < post.len(),
        has_name(pre, post[i].name),
        alike_but_store_fields(first_named(pre, post[i].name), post[i]),
    ensures
        forall|k: int|
            0 <= k < changes_of(pre, post).len() ==> (#[trigger] changes_of(pre, post)[k]).0
                != post[i],
{
    let d = post[i];
    lemma_store_fields_ignored(first_named(pre, d.name), d);
    assert(!is_changed(pre)(d));
    let kept = post.filter(is_changed(pre));
    assert forall|k: int| 0 <= k < changes_of(pre, post).len() implies (#[trigger] changes_of(
        pre,
        post,
    )[k]).0 != d by {
        post.lemma_filter_pred(is_changed(pre), k);
        assert(changes_of(pre, post)[k] == with_changes(pre)(kept[k]));
    }
}

/// Whether the records that share a name are alike in every compared field.
pub open spec fn alike_by_name(records: Seq<DomainView>) -> bool {
    forall|i: int, j: int|
        0 <= i < records.len() && 0 <= j < records.len() && (#[trigger] records[i]).name == (
        #[trigger] records[j]).name ==> field_changes(records[i], records[j]) == Seq::<
            ChangeView,
        >::empty()
}

/// Whether no two records share a name.
pub open spec fn distinct_names(records: Seq<DomainView>) -> bool {
    forall|i: int, j: int|
        0 <= i < j < records.len() ==> (#[trigger] records[i]).name != (#[trigger] records[j]).name
}

/// A snapshot in which no two records share a name holds records alike by
/// name.
pub proof fn lemma_distinct_names_alike(records: Seq<DomainView>)
    requires
        distinct_names(records),
    ensures
        alike_by_name(records),
{
    assert forall|i: int, j: int|
        0 <= i < records.len() && 0 <= j < records.len() && (#[trigger] records[i]).name == (
        #[trigger] records[j]).name implies field_changes(records[i], records[j]) == Seq::<
        ChangeView,
    >::empty() by {
        if i < j {
            assert(records[i].name != records[j].name);
        } else if j < i {
            assert(records[j].name != records[i].name);
        } else {
            lemma_store_fields_ignored(records[i], records[j]);
        }
    }
}

/// A snapshot against itself has no additions, no deletions and no changes,
/// where its records that share a name are alike.
pub proof fn lemma_same_snapshot(records: Seq<DomainView>)
    requires
        alike_by_name(records),
    ensures
        additions_of(records, records) == Seq::<DomainView>::empty(),
        deletions_of(records, records) == Seq::<Seq<char>>::empty(),
        changes_of(records, records) == Seq::<(DomainView, Seq<ChangeView>)>::empty(),
{
    assert forall|i: int| 0 <= i < records.len() implies !is_addition(records)(
        #[trigger] records[i],
    ) by {
        assert(has_name(records, records[i].name));
    }
    lemma_filter_nothing(records, is_addition(records));
    assert forall|i: int| 0 <= i < records.len() implies !is_deletion(records)(
        #[trigger] records[i],
    ) by {
        assert(has_name(records, records[i].name));
    }
    lemma_filter_nothing(records, is_deletion(records));
    assert(deletions_of(records, records) =~= Seq::<Seq<char>>::empty());
    assert forall|i: int| 0 <= i < records.len() implies !is_changed(records)(
        #[trigger] records[i],
    ) by {
        let name = records[i].name;
        assert(has_name(records, name));
        let k = choose|k: int| is_first_named(records, name, k);
        lemma_first_exists(records, name, i);
        lemma_first_named(records, name, k);
        assert(records[k].name == records[i].name);
    }
    lemma_filter_nothing(records, is_changed(records));
    assert(changes_of(records, records) =~= Seq::<(DomainView, Seq<ChangeView>)>::empty());
}

/// Where some record bears the name, one of them is the first.
pub proof fn lemma_first_exists(records: Seq<DomainView>, name: Seq<char>, i: int)
    requires
        0 <= i < records.len(),
        records[i].name == name,
    ensures
        exists|k: int| is_first_named(records, name, k),
    decreases i,
{
    if exists|j: int| 0 <= j < i && (#[trigger] records[j]).name == name {
        let j = choose|j: int| 0 <= j < i && (#[trigger] records[j]).name == name;
        lemma_first_exists(records, name, j);
    } else {
        assert(is_first_named(records, name, i));
    }
}

/// The diff engine reports nothing from outside the two snapshots: every
/// addition and every changed record is a record of the new snapshot, and
/// every deletion is the name of a record of the old one. A record of
/// another provider, which is in neither, is never reported.
pub proof fn lemma_diff_in_scope(pre: Seq<DomainView>, post: Seq<DomainView>)
    ensures
        forall|k: int|
            0 <= k < additions_of(pre, post).len() ==> post.contains(
                #[trigger] additions_of(pre, post)[k],
            ) && !has_name(pre, additions_of(pre, post)[k].name),
        forall|k: int|
            0 <= k < deletions_of(pre, post).len() ==> has_name(
                pre,
                #[trigger] deletions_of(pre, post)[k],
            ) && !has_name(post, deletions_of(pre, post)[k]),
        forall|k: int|
            0 <= k < changes_of(pre, post).len() ==> post.contains(
                (#[trigger] changes_of(pre, post)[k]).0,
            ) && has_name(pre, changes_of(pre, post)[k].0.name) && changes_of(pre, post)[k].1
                == changes_against(pre, changes_of(pre, post)[k].0)
                && changes_of(pre, post)[k].1.len() > 0,
{
    let added = post.filter(is_addition(pre));
    assert forall|k: int| 0 <= k < added.len() implies post.contains(#[trigger] added[k])
        && !has_name(pre, added[k].name) by {
        assert(added.contains(added[k]));
        lemma_filter_member(post, is_addition(pre), added[k]);
    }
    let gone = pre.filter(is_deletion(post));
    assert forall|k: int| 0 <= k < deletions_of(pre, post).len() implies has_name(
        pre,
        #[trigger] deletions_of(pre, post)[k],
    ) && !has_name(post, deletions_of(pre, post)[k]) by {
        assert(deletions_of(pre, post)[k] == name_of()(gone[k]));
        assert(gone.contains(gone[k]));
        lemma_filter_member(pre, is_deletion(post), gone[k]);
        let at = choose|at: int| 0 <= at < pre.len() && pre[at] == gone[k];
        assert(pre[at].name == gone[k].name);
    }
    let kept = post.filter(is_changed(pre));
    assert forall|k: int| 0 <= k < changes_of(pre, post).len() implies post.contains(
        (#[trigger] changes_of(pre, post)[k]).0,
    ) && has_name(pre, changes_of(pre, post)[k].0.name) && changes_of(pre, post)[k].1
        == changes_against(pre, changes_of(pre, post)[k].0) && changes_of(pre, post)[k].1.len()
        > 0 by {
        assert(changes_of(pre, post)[k] == with_changes(pre)(kept[k]));
        assert(kept.contains(kept[k]));
        lemma_filter_member(post, is_changed(pre), kept[k]);
    }
}

/// Whether the store holds, record by record, what is ingested, alike but
/// for the two fields that the store manages.
pub open spec fn is_stored_as(pre: Seq<DomainView>, post: Seq<DomainView>) -> bool {
    &&& pre.len() == post.len()
    &&& forall|i: int| 0 <= i < post.len() ==> alike_but_store_fields(pre[i], #[trigger] post[i])
}

/// Ingesting again what the store holds raises no notification: where no
/// two records share a name, and the store holds each ingested record alike
/// but for `created_at` and `updated_at`, the reconciliation finds no
/// addition, no deletion and no change.
pub proof fn lemma_reingest_is_quiet(pre: Seq<DomainView>, post: Seq<DomainView>)
    requires
        is_stored_as(pre, post),
        distinct_names(post),
    ensures
        additions_of(pre, post) == Seq::<DomainView>::empty(),
        deletions_of(pre, post) == Seq::<Seq<char>>::empty(),
        changes_of(pre, post) == Seq::<(DomainView, Seq<ChangeView>)>::empty(),
        notifications_of(pre, post) == Seq::<DraftView>::empty(),
{
    assert forall|i: int| 0 <= i < post.len() implies !is_addition(pre)(#[trigger] post[i]) by {
        assert(pre[i].name == post[i].name);
        assert(has_name(pre, post[i].name));
    }
    lemma_filter_nothing(post, is_addition(pre));
    assert forall|i: int| 0 <= i < pre.len() implies !is_deletion(post)(#[trigger] pre[i]) by {
        assert(post[i].name == pre[i].name);
        assert(has_name(post, pre[i].name));
    }
    lemma_filter_nothing(pre, is_deletion(post));
    assert(deletions_of(pre, post) =~= Seq::<Seq<char>>::empty());
    assert forall|i: int| 0 <= i < post.len() implies !is_changed(pre)(#[trigger] post[i]) by {
        let name = post[i].name;
        assert(pre[i].name == name);
        lemma_first_exists(pre, name, i);
        let k = choose|k: int| is_first_named(pre, name, k);
        lemma_first_named(pre, name, k);
        assert(post[k].name == pre[k].name);
        if k < i {
            assert(post[k].name != post[i].name);
        }
        if i < k {
            assert(post[i].name != post[k].name);
        }
        lemma_store_fields_ignored(pre[i], post[i]);
    }
    lemma_filter_nothing(post, is_changed(pre));
    assert(changes_of(pre, post) =~= Seq::<(DomainView, Seq<ChangeView>)>::empty());
    assert(notifications_of(pre, post) =~= Seq::<DraftView>::empty());
}

} // verus!
