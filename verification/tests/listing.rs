use dmn::cache::AppCache;
use dmn::cmd::listing::csv_listing;
use dmn::cmd::porkbun::{IndexSteps, PorkbunCommands};
use dmn::cmd::{
    auto_renew_cell, csv_record, date_cell, ls_header, output_format, status_cell, status_of,
    table_row, text_at, CellColor, OutputFormat,
};
use dmn::json::{Json, JsonObject};
use dmn::models::domain::Domain;
use dmn::server::cal::{day_of, expiry_days, generate_calendar, names_expiring_on};
use dmn::server::{reorder_openapi_tags, ApiTags};
use dmn::state::DatabaseConfig;
use dmn::time::Timestamp;
use dmn::util::color::colorize_provider;
use dmn::web::{
    account_id_of, count_expiring, date_in_short, date_in_words, expired, expiry_to_color,
    flag_to_color, format_cloudflare_url, provider_to_color, split_expired, within,
};

const DAY: i64 = 86_400;
const NOW: Timestamp = Timestamp { secs: 1_767_225_600, nanos: 500 };

fn text(s: &str) -> Json {
    Json::String(s.to_string())
}

fn object(entries: &[(&str, Json)]) -> Json {
    let mut o = JsonObject::new();
    for (key, value) in entries {
        o.insert(key.to_string(), value.clone());
    }
    Json::Object(o)
}

fn record(name: &str, expiry: Option<i64>) -> Domain {
    Domain {
        name: name.to_string(),
        provider: "porkbun".to_string(),
        external_id: Some(name.to_string()),
        ext_expiry_at: expiry.map(|secs| Timestamp { secs, nanos: 0 }),
        ext_registered_at: None,
        ext_auto_renew: None,
        ext_whois_privacy: None,
        metadata: None,
        created_at: None,
        updated_at: None,
    }
}

fn human(at: Timestamp, now: Timestamp) -> String {
    let then = chrono::DateTime::from_timestamp(at.secs, at.nanos).unwrap();
    let current = chrono::DateTime::from_timestamp(now.secs, now.nanos).unwrap();
    chrono_humanize::HumanTime::from(then - current).to_string()
}

#[test]
fn status_comes_from_the_metadata() {
    assert_eq!(status_of(&None), None);
    assert_eq!(status_of(&Some(Json::Null)), None);
    assert_eq!(status_of(&Some(object(&[("status", text("ACTIVE"))]))), Some("ACTIVE".to_string()));
    assert_eq!(
        status_of(&Some(object(&[
            ("status", Json::Bool(true)),
            ("last_known_status", text("registrationActive"))
        ]))),
        Some("registrationActive".to_string())
    );
    assert_eq!(
        status_of(&Some(object(&[
            ("last_known_status", text("x")),
            ("status", text("AUCTION"))
        ]))),
        Some("AUCTION".to_string())
    );
    assert_eq!(status_of(&Some(object(&[("last_known_status", Json::Null)]))), None);
    let value = object(&[("k", text("v"))]);
    assert_eq!(text_at(&value, "k"), Some(&"v".to_string()));
    assert_eq!(text_at(&value, "missing"), None);
    assert_eq!(text_at(&Json::Array(vec![]), "k"), None);
}

#[test]
fn status_cells_have_their_colours() {
    assert_eq!(status_cell(&None), ("-".to_string(), CellColor::DarkGrey));
    assert_eq!(status_cell(&Some("active".to_string())), ("ACTIVE".to_string(), CellColor::Green));
    assert_eq!(
        status_cell(&Some("registrationActive".to_string())),
        ("ACTIVE".to_string(), CellColor::Green)
    );
    assert_eq!(status_cell(&Some("Auction".to_string())), ("Auction".to_string(), CellColor::Red));
    assert_eq!(status_cell(&Some("parked".to_string())), ("PARKED".to_string(), CellColor::Yellow));
}

#[test]
fn date_cells_are_exact_or_in_words() {
    let at = Timestamp { secs: 1_776_383_999, nanos: 0 };
    assert_eq!(date_cell(Some(at), true, NOW, "-"), "2026-04-16 23:59:59");
    assert_eq!(date_cell(None, true, NOW, "-"), "-");
    assert_eq!(date_cell(None, false, NOW, ""), "");
    assert_eq!(date_cell(Some(at), false, NOW, "-"), human(at, NOW));
    let soon = Timestamp { secs: NOW.secs + 2 * DAY, nanos: NOW.nanos };
    assert_eq!(date_cell(Some(soon), false, NOW, "-"), "in 2 days");
    let past = Timestamp { secs: NOW.secs - 3 * DAY, nanos: NOW.nanos };
    assert_eq!(date_cell(Some(past), false, NOW, "-"), "3 days ago");
    let beyond = Timestamp { secs: i64::MAX, nanos: 0 };
    assert_eq!(date_cell(Some(beyond), true, NOW, "?"), "?");
    assert_eq!(date_cell(Some(beyond), false, NOW, "?"), "?");
    assert_eq!(auto_renew_cell(Some(true), "-"), "Yes");
    assert_eq!(auto_renew_cell(Some(false), "-"), "No");
    assert_eq!(auto_renew_cell(None, "-"), "-");
    assert_eq!(auto_renew_cell(None, ""), "");
}

#[test]
fn listing_is_written_as_csv() {
    let mut a = record("a.com", Some(1_776_383_999));
    a.metadata = Some(object(&[("status", text("ACTIVE"))]));
    a.ext_auto_renew = Some(true);
    let mut b = record("b, \"quoted\".org", None);
    b.ext_registered_at = Some(Timestamp { secs: 1_744_804_800, nanos: 0 });
    b.ext_auto_renew = Some(false);
    assert_eq!(
        ls_header(),
        vec!["Name", "Provider", "Status", "Expiry", "Registered", "Auto Renew"]
    );
    assert_eq!(
        csv_record(&a, true, NOW),
        vec!["a.com", "porkbun", "ACTIVE", "2026-04-16 23:59:59", "", "Yes"]
    );
    assert_eq!(
        csv_listing(&[a, b], true, NOW).unwrap(),
        "Name,Provider,Status,Expiry,Registered,Auto Renew\na.com,porkbun,ACTIVE,2026-04-16 23:59:59,,Yes\n\"b, \"\"quoted\"\".org\",porkbun,,,2025-04-16 12:00:00,No\n"
    );
    assert_eq!(
        csv_listing(&[], false, NOW).unwrap(),
        "Name,Provider,Status,Expiry,Registered,Auto Renew\n"
    );
}

#[test]
fn table_rows_show_a_dash_for_what_is_unknown() {
    let mut a = record("a.com", Some(1_776_383_999));
    a.metadata = Some(object(&[("last_known_status", text("pending"))]));
    let row = table_row(&a, true, NOW);
    assert_eq!(row.name, "a.com");
    assert_eq!(row.provider, "porkbun");
    assert_eq!(row.status, "PENDING");
    assert_eq!(row.status_color, CellColor::Yellow);
    assert_eq!(row.expiry, "2026-04-16 23:59:59");
    assert_eq!(row.registered, "-");
    assert_eq!(row.auto_renew, "-");
    let row = table_row(&record("b.com", None), false, NOW);
    assert_eq!(row.status, "-");
    assert_eq!(row.status_color, CellColor::DarkGrey);
    assert_eq!(row.expiry, "-");
}

#[test]
fn commands_name_their_steps() {
    assert_eq!(output_format("json"), Some(OutputFormat::Json));
    assert_eq!(output_format("csv"), Some(OutputFormat::Csv));
    assert_eq!(output_format("table"), Some(OutputFormat::Table));
    assert_eq!(output_format("yaml"), None);
    assert_eq!(output_format("JSON"), None);
    let all = PorkbunCommands::Index { no_dns: false, no_domains: false, no_pricing: false };
    assert_eq!(all.steps(), IndexSteps { domains: true, dns: true, pricing: true });
    let some = PorkbunCommands::Index { no_dns: true, no_domains: false, no_pricing: true };
    assert_eq!(some.steps(), IndexSteps { domains: true, dns: false, pricing: false });
    assert_eq!(ApiTags::Domains.name(), "Domains");
    assert_eq!(ApiTags::DNS.name(), "DNS");
    let _cache: AppCache = AppCache::new();
    let _other: AppCache = AppCache::default();
}

#[test]
fn database_url_falls_back_to_the_configuration_directory() {
    let set = DatabaseConfig { url: Some("sqlite://x.db".to_string()) };
    assert_eq!(set.database_url(&None, &None), Some("sqlite://x.db".to_string()));
    let unset = DatabaseConfig { url: None };
    assert_eq!(
        unset.database_url(&Some("/xdg".to_string()), &Some("/home/u".to_string())),
        Some("sqlite:///xdg/dmn/db.sqlite".to_string())
    );
    assert_eq!(
        unset.database_url(&None, &Some("/home/u".to_string())),
        Some("sqlite:///home/u/.config/dmn/db.sqlite".to_string())
    );
    assert_eq!(unset.database_url(&None, &None), None);
}

#[test]
fn providers_have_their_colours() {
    assert_eq!(provider_to_color(&"porkbun".to_string()), "text-[#EF7878]");
    assert_eq!(provider_to_color(&"cloudflare".to_string()), "text-[#F48120]");
    assert_eq!(provider_to_color(&"other".to_string()), "text-gray-500");
    assert_eq!(colorize_provider("namecheap"), "namecheap");
    colored::control::set_override(true);
    let orange = colorize_provider("cloudflare");
    assert!(orange.starts_with("\x1b[") && orange.ends_with("mCloudflare\x1b[0m"));
    assert!(orange == "\x1b[38;2;244;129;32mCloudflare\x1b[0m" || orange.len() < 24);
    let pink = colorize_provider("porkbun");
    assert!(pink.starts_with("\x1b[") && pink.ends_with("mPorkbun\x1b[0m"));
    colored::control::set_override(false);
    assert_eq!(colorize_provider("cloudflare"), "Cloudflare");
    assert_eq!(colorize_provider("porkbun"), "Porkbun");
    colored::control::unset_override();
    assert_eq!(
        format_cloudflare_url("acc", "a.com"),
        "https://dash.cloudflare.com/acc/registrar/domain/a.com"
    );
    assert_eq!(flag_to_color(Some(true)), "text-green-500");
    assert_eq!(flag_to_color(Some(false)), "text-red-500");
    assert_eq!(flag_to_color(None), "text-red-500");
}

#[test]
fn expiries_have_their_colours() {
    let at = |secs: i64, nanos: u32| Some(Timestamp { secs, nanos });
    assert_eq!(expiry_to_color(&None, NOW), "text-gray-500");
    assert_eq!(expiry_to_color(&at(NOW.secs - 1, 0), NOW), "text-red-500");
    assert_eq!(expiry_to_color(&at(NOW.secs, 499), NOW), "text-red-500");
    assert_eq!(expiry_to_color(&at(NOW.secs, 500), NOW), "text-orange-500");
    assert_eq!(expiry_to_color(&at(NOW.secs + 30 * DAY, 499), NOW), "text-orange-500");
    assert_eq!(expiry_to_color(&at(NOW.secs + 30 * DAY, 500), NOW), "text-yellow-500");
    assert_eq!(expiry_to_color(&at(NOW.secs + 60 * DAY, 499), NOW), "text-yellow-500");
    assert_eq!(expiry_to_color(&at(NOW.secs + 60 * DAY, 500), NOW), "text-neutral-500");
    assert_eq!(expiry_to_color(&at(i64::MAX, 0), NOW), "text-neutral-500");
    assert_eq!(expiry_to_color(&at(i64::MIN, 0), NOW), "text-red-500");
    let late = Timestamp { secs: i64::MAX, nanos: 0 };
    assert!(within(Timestamp { secs: i64::MAX, nanos: 0 }, late, 1));
    assert!(!within(Timestamp { secs: 5, nanos: 0 }, Timestamp { secs: 5, nanos: 0 }, 0));
}

#[test]
fn dates_of_the_page_are_short_or_in_words() {
    let at = Timestamp { secs: 1_776_383_999, nanos: 0 };
    assert_eq!(date_in_short(Some(at)), "16/04/26 - 11 pm");
    assert_eq!(date_in_short(None), "-");
    assert_eq!(date_in_short(Some(Timestamp { secs: i64::MIN, nanos: 0 })), "-");
    assert_eq!(date_in_words(Some(at), NOW), human(at, NOW));
    assert_eq!(date_in_words(Some(at), NOW), "in 3 months");
    assert_eq!(date_in_words(None, NOW), "-");
}

#[test]
fn dashboard_counts_expired_and_expiring() {
    let mut with_account = record("cf.com", None);
    with_account.metadata = Some(object(&[("account_id", text("acc-9"))]));
    let domains = vec![
        record("old.com", Some(NOW.secs - DAY)),
        record("soon.com", Some(NOW.secs + 10 * DAY)),
        with_account,
        record("later.com", Some(NOW.secs + 100 * DAY)),
        record("far.com", Some(NOW.secs + 400 * DAY)),
    ];
    assert!(expired(&domains[0], NOW));
    assert!(!expired(&domains[1], NOW));
    assert!(!expired(&domains[2], NOW));
    assert_eq!(account_id_of(&domains[2]), "acc-9");
    assert_eq!(account_id_of(&domains[0]), "-");
    let (gone, active) = split_expired(domains, NOW);
    let names = |list: &Vec<Domain>| list.iter().map(|d| d.name.clone()).collect::<Vec<_>>();
    assert_eq!(names(&gone), vec!["old.com"]);
    assert_eq!(names(&active), vec!["soon.com", "cf.com", "later.com", "far.com"]);
    assert_eq!(count_expiring(&active, NOW, 30), 2);
    assert_eq!(count_expiring(&active, NOW, 365), 3);
    assert_eq!(count_expiring(&active, NOW, 0), 0);
    assert_eq!(count_expiring(&vec![], NOW, 30), 0);
}

#[test]
fn calendar_has_a_day_for_each_day_of_expiry() {
    let domains = vec![
        record("a.com", Some(1_776_383_999)),
        record("unknown.com", None),
        record("b.com", Some(1_776_384_000)),
        record("c.com", Some(1_776_297_600)),
        record("beyond.com", Some(i64::MAX)),
    ];
    let first = Timestamp { secs: 1_776_297_600, nanos: 0 };
    let second = Timestamp { secs: 1_776_384_000, nanos: 0 };
    assert_eq!(day_of(&domains[0]), Some(first));
    assert_eq!(day_of(&domains[1]), None);
    assert_eq!(day_of(&domains[4]), None);
    assert_eq!(expiry_days(&domains), vec![first, second]);
    assert_eq!(names_expiring_on(&domains, second), vec!["b.com"]);
    let days = generate_calendar(&domains);
    assert_eq!(days.len(), 2);
    assert_eq!(days[0].day, first);
    assert_eq!(days[0].names, vec!["a.com", "c.com"]);
    assert_eq!(days[0].summary().unwrap(), "2 domains expire on 2026-04-16 00:00:00 UTC");
    assert_eq!(days[0].description(), "a.com\nc.com");
    assert_eq!(days[1].day, second);
    assert_eq!(days[1].summary().unwrap(), "1 domains expire on 2026-04-17 00:00:00 UTC");
    assert_eq!(days[1].description(), "b.com");
    assert!(generate_calendar(&[]).is_empty());
}

#[test]
fn tags_of_the_description_are_put_in_order() {
    let json = "{\"info\": {}, \"tags\": [{\"name\": \"DNS\", \"description\": \"d [x]\"}, {\"name\": \"Domains\"}, {\"name\": \"Other\"}, {\"name\": \"DNS\"}], \"paths\": {\"tags\": [1]}}";
    let expected = "{\"info\": {}, \"tags\": [{\"name\":\"Domains\"},{\"description\":\"d [x]\",\"name\":\"DNS\"},{\"name\":\"Other\"},{\"name\":\"DNS\"}], \"paths\": {\"tags\": [1]}}";
    assert_eq!(reorder_openapi_tags(json, &["Domains", "DNS", "Whois"]), expected);
    assert_eq!(reorder_openapi_tags(expected, &["Domains", "DNS", "Whois"]), expected);
    let nested = "x \"tags\": [[1, 2], {\"name\": \"é\"}, [3]] y";
    assert_eq!(reorder_openapi_tags(nested, &["é"]), "x \"tags\": [{\"name\":\"é\"},[1,2],[3]] y");
    assert_eq!(reorder_openapi_tags(nested, &[]), "x \"tags\": [[1,2],{\"name\":\"é\"},[3]] y");
    for same in [
        "{\"paths\": {}}",
        "{\"tags\": [1, 2",
        "{\"tags\": [a]}",
        "{\"tags\":[{\"name\":\"DNS\"}]}",
        "",
    ] {
        assert_eq!(reorder_openapi_tags(same, &["DNS"]), same);
    }
}
