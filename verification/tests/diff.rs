use dmn::json::{Json, JsonNumber, JsonObject};
use dmn::models::domain::Domain;
use dmn::modules::domains::{
    bool_from_value, changed_fields, diff_changes, diff_provider, diff_to_human, find_named,
    ignored_key, plan_notifications,
};
use dmn::time::Timestamp;

fn record(name: &str, provider: &str) -> Domain {
    Domain {
        name: name.to_string(),
        provider: provider.to_string(),
        external_id: Some(name.to_string()),
        ext_expiry_at: None,
        ext_registered_at: None,
        ext_auto_renew: None,
        ext_whois_privacy: None,
        metadata: None,
        created_at: None,
        updated_at: None,
    }
}

fn object(entries: &[(&str, Json)]) -> Json {
    let mut o = JsonObject::new();
    for (key, value) in entries {
        o.insert(key.to_string(), value.clone());
    }
    Json::Object(o)
}

fn text(s: &str) -> Json {
    Json::String(s.to_string())
}

fn number(n: u64) -> Json {
    Json::Number(JsonNumber::PosInt(n))
}

fn debug_of(old: &str, new: &str) -> String {
    let a: serde_json::Value = serde_json::from_str(old).unwrap();
    let b: serde_json::Value = serde_json::from_str(new).unwrap();
    format!("{:?}", (&a, &b))
}

#[test]
fn addition_is_reported() {
    let mut a = record("a.com", "porkbun");
    a.ext_auto_renew = Some(true);
    let (additions, deletions, changes) = diff_changes(&[], &[a]);
    assert_eq!(additions.len(), 1);
    assert_eq!(additions[0].name, "a.com");
    assert_eq!(additions[0].provider, "porkbun");
    assert_eq!(additions[0].ext_auto_renew, Some(true));
    assert!(deletions.is_empty());
    assert!(changes.is_empty());
}

#[test]
fn deletion_is_reported() {
    let b = record("b.com", "porkbun");
    let (additions, deletions, changes) = diff_changes(&[b], &[]);
    assert!(additions.is_empty());
    assert_eq!(deletions, vec!["b.com".to_string()]);
    assert!(changes.is_empty());
}

#[test]
fn auto_renew_change_is_written_as_a_flag() {
    let mut pre = record("a.com", "porkbun");
    pre.ext_auto_renew = Some(false);
    let mut post = record("a.com", "porkbun");
    post.ext_auto_renew = Some(true);
    let (additions, deletions, changes) = diff_changes(&[pre], &[post]);
    assert!(additions.is_empty());
    assert!(deletions.is_empty());
    assert_eq!(changes.len(), 1);
    assert_eq!(changes[0].0.name, "a.com");
    assert_eq!(changes[0].1.len(), 1);
    assert_eq!(changes[0].1[0].0, "ext_auto_renew");
    let (_, set) = changes.into_iter().next().unwrap();
    let message = diff_to_human("a.com".to_string(), set);
    assert!(message.contains("Auto Renew Changed: false => true"));
    assert_eq!(message, " - Auto Renew Changed: false => true");
}

#[test]
fn metadata_status_change_is_written_as_a_flag() {
    let mut pre = record("a.com", "porkbun");
    pre.metadata = Some(object(&[("status", number(0))]));
    let mut post = record("a.com", "porkbun");
    post.metadata = Some(object(&[("status", number(1))]));
    let (_, _, changes) = diff_changes(&[pre], &[post]);
    assert_eq!(changes.len(), 1);
    assert_eq!(changes[0].1.len(), 1);
    assert_eq!(changes[0].1[0].0, "metadata");
    let (_, set) = changes.into_iter().next().unwrap();
    let message = diff_to_human("a.com".to_string(), set);
    assert!(message.contains("Status Changed: false => true"));
    assert_eq!(message, " - Status Changed: false => true");
}

#[test]
fn metadata_status_texts_read_true_only_when_they_say_true() {
    let old = object(&[("status", text("0"))]);
    let new = object(&[("status", text("1"))]);
    let set = vec![("metadata".to_string(), (old, new))];
    assert_eq!(diff_to_human("a.com".to_string(), set), " - Status Changed: false => false");
    let old = object(&[("status", text("false"))]);
    let new = object(&[("status", text("TRUE"))]);
    let set = vec![("metadata".to_string(), (old, new))];
    assert_eq!(diff_to_human("a.com".to_string(), set), " - Status Changed: false => true");
}

#[test]
fn metadata_lines_come_in_the_order_of_the_keys() {
    let old = object(&[
        ("tld", text("com")),
        ("security_lock", number(1)),
        ("status", text("ACTIVE")),
        ("gone", text("x")),
    ]);
    let new = object(&[
        ("status", text("ACTIVE")),
        ("security_lock", number(0)),
        ("tld", text("org")),
        ("fresh", Json::Bool(true)),
    ]);
    let set = vec![("metadata".to_string(), (old, new))];
    let expected = format!(
        " - fresh: {}\n - gone: {}\n - Security Lock Changed: true => false\n - tld: {}",
        debug_of("null", "true"),
        debug_of("\"x\"", "null"),
        debug_of("\"com\"", "\"org\""),
    );
    assert_eq!(diff_to_human("a.com".to_string(), set), expected);
}

#[test]
fn other_fields_are_written_with_both_values() {
    let set = vec![
        ("external_id".to_string(), (text("a\"1"), Json::Null)),
        ("metadata".to_string(), (Json::Null, object(&[("b", number(2)), ("a", text("x"))]))),
        (
            "things".to_string(),
            (
                Json::Array(vec![Json::Bool(false), Json::Number(JsonNumber::NegInt(-3))]),
                Json::Number(JsonNumber::NegInt(7)),
            ),
        ),
    ];
    let expected = format!(
        " - external_id: {}\n - metadata: {}\n - things: {}",
        debug_of("\"a\\\"1\"", "null"),
        debug_of("null", "{\"a\":\"x\",\"b\":2}"),
        debug_of("[false,-3]", "7"),
    );
    let message = diff_to_human("a.com".to_string(), set);
    assert_eq!(message, expected);
    assert!(message.starts_with(" - external_id: (String(\"a\\\"1\"), Null)"));
    assert!(message.ends_with(" - things: (Array [Bool(false), Number(-3)], Number(7))"));
}

#[test]
fn fields_on_one_line_each_give_as_many_lines() {
    let set = vec![
        ("name".to_string(), (text("a\nb"), text("c\r\nd"))),
        ("ext_auto_renew".to_string(), (Json::Null, number(3))),
        ("metadata".to_string(), (Json::Null, object(&[("k\n", text("\n"))]))),
        ("external_id".to_string(), (text(""), Json::Array(vec![text("\n\n")]))),
    ];
    let message = diff_to_human("a.com".to_string(), set);
    assert_eq!(message.lines().count(), 4);
    assert_eq!(message.matches('\n').count(), 3);
    assert!(message.lines().all(|line| line.starts_with(" - ")));
    assert_eq!(message.lines().nth(1), Some(" - Auto Renew Changed: false => true"));
}

#[test]
fn empty_change_set_gives_an_empty_message() {
    assert_eq!(diff_to_human("a.com".to_string(), vec![]), "");
}

#[test]
fn equal_metadata_objects_leave_an_empty_line_that_is_trimmed() {
    let old = object(&[("a", Json::Null)]);
    let new = object(&[]);
    let set = vec![
        ("metadata".to_string(), (old, new)),
        ("ext_auto_renew".to_string(), (Json::Bool(true), Json::Null)),
    ];
    assert_eq!(diff_to_human("a.com".to_string(), set), " - Auto Renew Changed: true => false");
}

#[test]
fn snapshot_against_itself_is_quiet() {
    let mut a = record("a.com", "porkbun");
    a.metadata = Some(object(&[("status", text("ACTIVE"))]));
    a.ext_expiry_at = Some(Timestamp { secs: 1_776_383_999, nanos: 0 });
    let b = record("b.com", "porkbun");
    let snapshot = vec![a, b];
    let (additions, deletions, changes) = diff_changes(&snapshot, &snapshot);
    assert!(additions.is_empty());
    assert!(deletions.is_empty());
    assert!(changes.is_empty());
    assert!(diff_provider(&snapshot, &snapshot).is_empty());
}

#[test]
fn snapshot_with_two_unlike_records_of_a_name_is_not_quiet() {
    let mut first = record("a.com", "porkbun");
    first.ext_auto_renew = Some(true);
    let mut second = record("a.com", "porkbun");
    second.ext_auto_renew = Some(false);
    let snapshot = vec![first, second];
    let (additions, deletions, changes) = diff_changes(&snapshot, &snapshot);
    assert!(additions.is_empty());
    assert!(deletions.is_empty());
    assert_eq!(changes.len(), 1);
    assert_eq!(changes[0].0.ext_auto_renew, Some(false));
    assert_eq!(changes[0].1[0].0, "ext_auto_renew");
}

#[test]
fn store_fields_never_count_as_a_change() {
    let mut pre = record("a.com", "porkbun");
    pre.created_at = Some(Timestamp { secs: 1, nanos: 0 });
    pre.updated_at = Some(Timestamp { secs: 2, nanos: 0 });
    let mut post = record("a.com", "porkbun");
    post.created_at = None;
    post.updated_at = Some(Timestamp { secs: 99, nanos: 5 });
    assert!(changed_fields(&pre, &post).is_empty());
    let (additions, deletions, changes) = diff_changes(&[pre], &[post]);
    assert!(additions.is_empty());
    assert!(deletions.is_empty());
    assert!(changes.is_empty());
    assert!(ignored_key("created_at"));
    assert!(ignored_key("updated_at"));
    assert!(!ignored_key("name"));
}

#[test]
fn diff_is_the_same_on_every_run() {
    let mut old = record("a.com", "porkbun");
    old.ext_whois_privacy = Some(true);
    let mut new = record("a.com", "porkbun");
    new.ext_whois_privacy = Some(false);
    let pre = vec![old, record("b.com", "porkbun")];
    let post = vec![new, record("c.com", "porkbun")];
    let first = diff_changes(&pre, &post);
    let second = diff_changes(&pre, &post);
    assert_eq!(first.1, second.1);
    assert_eq!(first.1, vec!["b.com".to_string()]);
    assert_eq!(first.0.len(), 1);
    assert_eq!(second.0.len(), 1);
    assert_eq!(first.0[0].name, "c.com");
    assert_eq!(second.0[0].name, "c.com");
    assert_eq!(first.2.len(), 1);
    assert_eq!(second.2.len(), 1);
    assert_eq!(first.2[0].1[0].0, second.2[0].1[0].0);
    assert_eq!(first.2[0].1[0].0, "ext_whois_privacy");
    assert!(first.2[0].1[0].1.0.same(&second.2[0].1[0].1.0));
    assert!(first.2[0].1[0].1.1.same(&Json::Bool(false)));
}

#[test]
fn other_providers_are_out_of_sight() {
    let porkbun = vec![record("a.com", "porkbun"), record("p.com", "porkbun")];
    let cloudflare_pre = vec![record("c.com", "cloudflare")];
    let cloudflare_post = vec![record("d.com", "cloudflare")];
    let (additions, deletions, changes) = diff_changes(&cloudflare_pre, &cloudflare_post);
    assert_eq!(additions.len(), 1);
    assert_eq!(additions[0].name, "d.com");
    assert_eq!(deletions, vec!["c.com".to_string()]);
    assert!(changes.is_empty());
    for domain in &porkbun {
        assert!(additions.iter().all(|d| d.name != domain.name));
        assert!(!deletions.contains(&domain.name));
    }
}

#[test]
fn records_are_joined_by_name_alone() {
    let pre = vec![record("a.com", "porkbun")];
    let post = vec![record("a.com", "cloudflare")];
    let (additions, deletions, changes) = diff_changes(&pre, &post);
    assert!(additions.is_empty());
    assert!(deletions.is_empty());
    assert_eq!(changes.len(), 1);
    assert_eq!(changes[0].1.len(), 1);
    assert_eq!(changes[0].1[0].0, "provider");
}

#[test]
fn first_record_of_a_name_is_the_one_compared() {
    let mut first = record("a.com", "porkbun");
    first.ext_auto_renew = Some(true);
    let mut second = record("a.com", "porkbun");
    second.ext_auto_renew = Some(false);
    let pre = vec![record("z.com", "porkbun"), first, second];
    assert_eq!(find_named(&pre, "a.com"), Some(1));
    assert_eq!(find_named(&pre, "q.com"), None);
    let mut post = record("a.com", "porkbun");
    post.ext_auto_renew = Some(true);
    let (_, deletions, changes) = diff_changes(&pre, &[post]);
    assert_eq!(deletions, vec!["z.com".to_string()]);
    assert!(changes.is_empty());
}

#[test]
fn expiry_change_shows_both_dates() {
    let mut pre = record("a.com", "porkbun");
    pre.ext_expiry_at = Some(Timestamp { secs: 1_776_383_999, nanos: 0 });
    let mut post = record("a.com", "porkbun");
    post.ext_expiry_at = Some(Timestamp { secs: 1_807_919_999, nanos: 500_000_000 });
    let set = changed_fields(&pre, &post);
    assert_eq!(set.len(), 1);
    assert_eq!(set[0].0, "ext_expiry_at");
    assert_eq!(
        diff_to_human("a.com".to_string(), set),
        " - ext_expiry_at: (String(\"2026-04-16T23:59:59Z\"), String(\"2027-04-16T23:59:59.500Z\"))"
    );
}

#[test]
fn canonical_form_has_every_field() {
    let mut a = record("a.com", "porkbun");
    a.ext_expiry_at = Some(Timestamp { secs: 0, nanos: 0 });
    a.ext_registered_at = Some(Timestamp { secs: i64::MAX, nanos: 0 });
    let fields = a.fields();
    let keys: Vec<&str> = fields.iter().map(|f| f.0.as_str()).collect();
    assert_eq!(
        keys,
        vec![
            "created_at",
            "ext_auto_renew",
            "ext_expiry_at",
            "ext_registered_at",
            "ext_whois_privacy",
            "external_id",
            "metadata",
            "name",
            "provider",
            "updated_at"
        ]
    );
    assert!(fields[2].1.same(&text("1970-01-01T00:00:00Z")));
    assert!(fields[3].1.same(&Json::Null));
    assert!(fields[5].1.same(&text("a.com")));
    assert!(fields[6].1.same(&Json::Null));
}

#[test]
fn flags_are_read_permissively() {
    assert!(bool_from_value(&Json::Bool(true)));
    assert!(!bool_from_value(&Json::Bool(false)));
    assert!(bool_from_value(&number(1)));
    assert!(bool_from_value(&number(7)));
    assert!(bool_from_value(&Json::Number(JsonNumber::NegInt(-1))));
    assert!(!bool_from_value(&number(0)));
    assert!(!bool_from_value(&Json::Number(JsonNumber::NegInt(0))));
    assert!(bool_from_value(&text("true")));
    assert!(bool_from_value(&text("TrUe")));
    assert!(!bool_from_value(&text("true ")));
    assert!(!bool_from_value(&text("yes")));
    assert!(!bool_from_value(&text("1")));
    assert!(!bool_from_value(&text("")));
    assert!(!bool_from_value(&Json::Null));
    assert!(!bool_from_value(&Json::Array(vec![])));
    assert!(!bool_from_value(&object(&[])));
}

#[test]
fn notifications_come_in_the_order_delete_add_change() {
    let mut old = record("a.com", "porkbun");
    old.ext_auto_renew = Some(true);
    let mut new = record("a.com", "porkbun");
    new.ext_auto_renew = Some(false);
    let pre = vec![old, record("b.com", "porkbun")];
    let post = vec![record("c.com", "porkbun"), new];
    let drafts = diff_provider(&pre, &post);
    let seen: Vec<(&str, &str, &str)> = drafts
        .iter()
        .map(|d| (d.domain.as_str(), d.event.as_str(), d.message.as_str()))
        .collect();
    assert_eq!(
        seen,
        vec![
            ("b.com", "delete", "Domain deleted"),
            ("c.com", "add", "New domain detected"),
            ("a.com", "change", " - Auto Renew Changed: true => false"),
        ]
    );
    let (additions, deletions, changes) = diff_changes(&pre, &post);
    assert_eq!(plan_notifications(&additions, &deletions, &changes).len(), 3);
    assert!(plan_notifications(&vec![], &vec![], &vec![]).is_empty());
}
