use dmn::json::{Json, JsonDecimal, JsonNumber, JsonObject};
use dmn::modules::cloudflare::domains::{CloudflareContact, CloudflareDomain};
use dmn::modules::cloudflare::domains_endpoint::{
    media_type_of, ListDomains, ListDomainsParams, RequestBodyKind,
};
use dmn::modules::cloudflare::{CloudflareConfig, CloudflareService, Credentials};
use dmn::modules::domains::{diff_changes, diff_provider};
use dmn::modules::porkbun::domains::{PorkbunDomain, PorkbunDomainData};
use dmn::modules::porkbun::pricing::PorkbunPricingConfig;
use dmn::modules::porkbun::{PingResponse, PorkbunConfig, PorkbunError, PorkbunService};
use dmn::time::{read_instant, Timestamp};
use dmn::util::serde_strint::{
    int_from_bool, int_from_i64, int_from_text, int_from_u64, integer_or_unknown, parse_i32,
    string_or_int_to_option_i32, IntegerError,
};

fn text(s: &str) -> Json {
    Json::String(s.to_string())
}

fn porkbun_domain() -> PorkbunDomain {
    PorkbunDomain {
        domain: "a.com".to_string(),
        status: Some("ACTIVE".to_string()),
        tld: Some("com".to_string()),
        create_date: Some("2025-04-16 12:00:00".to_string()),
        expire_date: Some("2026-04-16 23:59:59".to_string()),
        security_lock: Some(1),
        whois_privacy: Some(0),
        auto_renew: Some(1),
        not_local: None,
    }
}

fn metadata_of(m: &Option<Json>) -> &JsonObject {
    match m {
        Some(Json::Object(o)) => o,
        _ => panic!("the metadata is no object"),
    }
}

#[test]
fn porkbun_domain_becomes_a_record() {
    let record = porkbun_domain().normalize();
    assert_eq!(record.name, "a.com");
    assert_eq!(record.provider, "porkbun");
    assert_eq!(record.external_id, Some("a.com".to_string()));
    assert_eq!(record.ext_registered_at, Some(Timestamp { secs: 1_744_804_800, nanos: 0 }));
    assert_eq!(record.ext_expiry_at, Some(Timestamp { secs: 1_776_383_999, nanos: 0 }));
    assert_eq!(record.ext_auto_renew, Some(true));
    assert_eq!(record.ext_whois_privacy, Some(false));
    assert_eq!(record.created_at, None);
    assert_eq!(record.updated_at, None);
    let metadata = metadata_of(&record.metadata);
    assert_eq!(metadata.len(), 5);
    assert!(metadata.get("status").unwrap().same(&text("ACTIVE")));
    assert!(metadata.get("tld").unwrap().same(&text("com")));
    assert!(metadata.get("create_date").unwrap().same(&text("2025-04-16 12:00:00")));
    assert!(metadata.get("expire_date").unwrap().same(&text("2026-04-16 23:59:59")));
    assert!(metadata.get("security_lock").unwrap().same(&Json::Number(JsonNumber::PosInt(1))));
}

#[test]
fn porkbun_fields_that_are_missing_are_unknown() {
    let raw = PorkbunDomain {
        domain: "b.org".to_string(),
        status: None,
        tld: None,
        create_date: None,
        expire_date: Some("16.04.2026".to_string()),
        security_lock: None,
        whois_privacy: None,
        auto_renew: Some(2),
        not_local: None,
    };
    let record = raw.normalize();
    assert_eq!(record.ext_expiry_at, None);
    assert_eq!(record.ext_registered_at, None);
    assert_eq!(record.ext_auto_renew, Some(true));
    assert_eq!(record.ext_whois_privacy, None);
    let metadata = metadata_of(&record.metadata);
    assert!(metadata.get("status").unwrap().same(&Json::Null));
    assert!(metadata.get("security_lock").unwrap().same(&Json::Null));
    assert!(metadata.get("expire_date").unwrap().same(&text("16.04.2026")));
}

#[test]
fn dates_are_read_in_both_forms_from_either_provider() {
    let mut listed = porkbun_domain();
    listed.expire_date = Some("2026-04-16T23:59:59Z".to_string());
    listed.create_date = Some("2025-04-16T14:00:00.5+02:00".to_string());
    let record = listed.normalize();
    assert_eq!(record.ext_expiry_at, Some(Timestamp { secs: 1_776_383_999, nanos: 0 }));
    assert_eq!(
        record.ext_registered_at,
        Some(Timestamp { secs: 1_744_804_800, nanos: 500_000_000 })
    );
    let mut held = cloudflare_domain();
    held.expires_at = "2026-04-16 23:59:59".to_string();
    let record = held.normalize("a", "b");
    assert_eq!(record.ext_expiry_at, Some(Timestamp { secs: 1_776_383_999, nanos: 0 }));
    assert_eq!(read_instant("2026-04-16"), None);
    assert_eq!(read_instant("2026-04-16 23:59:59"), read_instant("2026-04-16T23:59:59+00:00"));
}

#[test]
fn porkbun_flags_are_set_when_they_are_not_zero() {
    let flags = |auto_renew: &Json, privacy: &Json| {
        let mut raw = porkbun_domain();
        raw.auto_renew = string_or_int_to_option_i32(auto_renew).unwrap();
        raw.whois_privacy = string_or_int_to_option_i32(privacy).unwrap();
        let record = raw.normalize();
        (record.ext_auto_renew, record.ext_whois_privacy)
    };
    assert_eq!(flags(&Json::unsigned(2), &text("2")), (Some(true), Some(true)));
    assert_eq!(flags(&Json::unsigned(1), &text("1")), (Some(true), Some(true)));
    assert_eq!(flags(&Json::unsigned(0), &text("0")), (Some(false), Some(false)));
    assert_eq!(flags(&Json::signed(-1), &text("-3")), (Some(true), Some(true)));
    assert_eq!(flags(&Json::Bool(true), &Json::Bool(false)), (Some(true), Some(false)));
    assert_eq!(flags(&Json::Null, &Json::Null), (None, None));
}

#[test]
fn porkbun_listing_needs_success() {
    let listing = PorkbunDomainData {
        status: "SUCCESS".to_string(),
        domains: vec![porkbun_domain(), porkbun_domain()],
    };
    let records = listing.normalize().unwrap();
    assert_eq!(records.len(), 2);
    assert_eq!(records[1].name, "a.com");
    let refused = PorkbunDomainData { status: "ERROR".to_string(), domains: vec![porkbun_domain()] };
    match refused.normalize() {
        Err(PorkbunError::ListError(status)) => assert_eq!(status, "ERROR"),
        other => panic!("unexpected: {:?}", other),
    }
    let empty = PorkbunDomainData { status: "SUCCESS".to_string(), domains: vec![] };
    assert!(empty.normalize().unwrap().is_empty());
}

#[test]
fn ingesting_again_what_is_stored_is_quiet() {
    let listing = || {
        let mut second = porkbun_domain();
        second.domain = "b.com".to_string();
        second.auto_renew = None;
        PorkbunDomainData { status: "SUCCESS".to_string(), domains: vec![porkbun_domain(), second] }
    };
    let mut stored = listing().normalize().unwrap();
    for (i, record) in stored.iter_mut().enumerate() {
        record.created_at = Some(Timestamp { secs: 1_700_000_000 + i as i64, nanos: 0 });
        record.updated_at = Some(Timestamp { secs: 1_700_000_500, nanos: 7 });
    }
    let again = listing().normalize().unwrap();
    let (additions, deletions, changes) = diff_changes(&stored, &again);
    assert!(additions.is_empty());
    assert!(deletions.is_empty());
    assert!(changes.is_empty());
    assert!(diff_provider(&stored, &again).is_empty());
    let mut renewed = listing();
    renewed.domains[1].expire_date = Some("2027-04-16 23:59:59".to_string());
    let drafts = diff_provider(&stored, &renewed.normalize().unwrap());
    assert_eq!(drafts.len(), 1);
    assert_eq!(drafts[0].domain, "b.com");
    assert_eq!(drafts[0].event, "change");
    assert_eq!(
        drafts[0].message,
        " - ext_expiry_at: (String(\"2026-04-16T23:59:59Z\"), String(\"2027-04-16T23:59:59Z\"))\n - expire_date: (String(\"2026-04-16 23:59:59\"), String(\"2027-04-16 23:59:59\"))"
    );
}

#[test]
fn porkbun_errors_have_their_messages() {
    assert_eq!(PorkbunError::MissingApiKey.message(), "Missing api_key");
    assert_eq!(PorkbunError::MissingSecretKey.message(), "Missing secret_key");
    assert_eq!(PorkbunError::PingFailed("x".to_string()).message(), "Ping failed: x");
    assert_eq!(PorkbunError::PingError("NO".to_string()).message(), "Ping error: NO");
    assert_eq!(PorkbunError::ListFailed("y".to_string()).message(), "Domain listAll failed: y");
    assert_eq!(PorkbunError::ListError("NO".to_string()).message(), "Domain listAll error: NO");
    assert_eq!(PorkbunError::ListMalformed.message(), "Domain listAll answer is malformed");
}

#[test]
fn porkbun_credentials_need_both_keys() {
    let config = |api: Option<&str>, secret: Option<&str>| PorkbunConfig {
        api_key: api.map(str::to_string),
        secret_key: secret.map(str::to_string),
        pricing: None,
    };
    let service = PorkbunService::new(config(Some("k"), Some("s")));
    let keys = service.credentials().unwrap();
    assert_eq!(keys.apikey, "k");
    assert_eq!(keys.secretapikey, "s");
    let service = PorkbunService::new(config(None, None));
    assert!(matches!(service.credentials(), Err(PorkbunError::MissingApiKey)));
    let service = PorkbunService::new(config(None, Some("s")));
    assert!(matches!(service.credentials(), Err(PorkbunError::MissingApiKey)));
    let service = PorkbunService::new(config(Some("k"), None));
    assert!(matches!(service.credentials(), Err(PorkbunError::MissingSecretKey)));
}

#[test]
fn porkbun_pricing_is_off_unless_enabled() {
    let mut config = PorkbunConfig { api_key: None, secret_key: None, pricing: None };
    assert!(!config.pricing_enabled());
    config.pricing = Some(PorkbunPricingConfig { enabled: false, interval: None });
    assert!(!config.pricing_enabled());
    config.pricing = Some(PorkbunPricingConfig { enabled: true, interval: Some("1h".to_string()) });
    assert!(config.pricing_enabled());
}

#[test]
fn ping_answers_with_the_address() {
    let ok = PingResponse { status: "SUCCESS".to_string(), yourIp: Some("1.2.3.4".to_string()) };
    assert_eq!(ok.outcome().unwrap(), "1.2.3.4");
    let bare = PingResponse { status: "SUCCESS".to_string(), yourIp: None };
    assert_eq!(bare.outcome().unwrap(), "");
    let bad = PingResponse { status: "ERROR".to_string(), yourIp: Some("1.2.3.4".to_string()) };
    match bad.outcome() {
        Err(PorkbunError::PingError(status)) => assert_eq!(status, "ERROR"),
        other => panic!("unexpected: {:?}", other),
    }
}

fn cloudflare_domain() -> CloudflareDomain {
    let mut policies = JsonObject::new();
    policies.insert("parked".to_string(), Json::Bool(false));
    CloudflareDomain {
        actionable_metadata: vec![],
        administrator_contact_id: 1,
        auto_renew: true,
        available: false,
        billing_contact_id: 2,
        can_register: false,
        cloudflare_dns: true,
        cloudflare_registration: true,
        contacts: CloudflareContact {
            administrator_id: 1,
            billing_id: 2,
            registrant_id: 3,
            technical_id: 4,
        },
        contacts_updated_at: "2025-04-16T03:49:11.736Z".to_string(),
        cor_changes: None,
        cor_locked: false,
        cor_locked_until: None,
        cor_responses_pending: 0,
        current_registrar: "Cloudflare".to_string(),
        domain_move: Json::Object(JsonObject::new()),
        ds_records: vec![text("x")],
        email_verified: true,
        expires_at: "2026-04-16T23:59:59.000Z".to_string(),
        last_known_status: "registrationActive".to_string(),
        locked: true,
        name: "mytestweb.site".to_string(),
        name_servers: vec!["simone.ns.cloudflare.com".to_string()],
        payment_expires_at: "2026-04-16T23:59:59.000Z".to_string(),
        pending_transfer: false,
        permissions: vec!["contact_read".to_string(), "domain_renew".to_string()],
        policies: Json::Object(policies),
        premium_type: "not_premium".to_string(),
        privacy: true,
        registered_at: "2025-04-16T03:49:07.665+00:00".to_string(),
        registered_billing_version: "V3".to_string(),
        registrant_contact_id: 3,
        registry: "Centralnic".to_string(),
        registry_object_id: "D544299396-CNIC".to_string(),
        registry_statuses: "clienttransferprohibited".to_string(),
        supported_tld: true,
        technical_contact_id: 4,
        transfer_conditions: Json::Null,
    }
}

#[test]
fn cloudflare_domain_becomes_a_record() {
    let record = cloudflare_domain().normalize("acc-1", "Main");
    assert_eq!(record.name, "mytestweb.site");
    assert_eq!(record.provider, "cloudflare");
    assert_eq!(record.external_id, Some("mytestweb.site".to_string()));
    assert_eq!(record.ext_expiry_at, Some(Timestamp { secs: 1_776_383_999, nanos: 0 }));
    assert_eq!(
        record.ext_registered_at,
        Some(Timestamp { secs: 1_744_775_347, nanos: 665_000_000 })
    );
    assert_eq!(record.ext_auto_renew, Some(true));
    assert_eq!(record.ext_whois_privacy, Some(true));
    let metadata = metadata_of(&record.metadata);
    assert_eq!(metadata.len(), 40);
    assert!(metadata.get("account_id").unwrap().same(&text("acc-1")));
    assert!(metadata.get("account_name").unwrap().same(&text("Main")));
    assert!(metadata.get("name").unwrap().same(&text("mytestweb.site")));
    assert!(metadata.get("cor_changes").unwrap().same(&Json::Null));
    assert!(metadata.get("ds_records").unwrap().same(&Json::Array(vec![text("x")])));
    assert!(metadata
        .get("permissions")
        .unwrap()
        .same(&Json::Array(vec![text("contact_read"), text("domain_renew")])));
    assert!(metadata.get("technical_contact_id").unwrap().same(&Json::unsigned(4)));
    let mut contacts = JsonObject::new();
    contacts.insert("technical_id".to_string(), Json::unsigned(4));
    contacts.insert("registrant_id".to_string(), Json::unsigned(3));
    contacts.insert("billing_id".to_string(), Json::unsigned(2));
    contacts.insert("administrator_id".to_string(), Json::unsigned(1));
    assert!(metadata.get("contacts").unwrap().same(&Json::Object(contacts)));
}

#[test]
fn cloudflare_dates_that_do_not_parse_are_unknown() {
    let mut raw = cloudflare_domain();
    raw.expires_at = "16.04.2026 23:59:59".to_string();
    raw.registered_at = "".to_string();
    let record = raw.normalize("a", "b");
    assert_eq!(record.ext_expiry_at, None);
    assert_eq!(record.ext_registered_at, None);
    assert_eq!(cloudflare_domain().to_json().len(), 38);
}

#[test]
fn cloudflare_credentials_prefer_the_global_key() {
    let config = |api: Option<&str>, global: Option<&str>, email: Option<&str>| CloudflareConfig {
        api_key: api.map(str::to_string),
        global_api_key: global.map(str::to_string),
        email: email.map(str::to_string),
    };
    match config(Some("t"), Some("g"), Some("e@x")).credentials() {
        Some(Credentials::UserAuthKey { key, email }) => {
            assert_eq!(key, "g");
            assert_eq!(email, "e@x");
        }
        other => panic!("unexpected: {:?}", other),
    }
    match config(Some("t"), None, Some("e@x")).credentials() {
        Some(Credentials::UserAuthToken { token }) => assert_eq!(token, "t"),
        other => panic!("unexpected: {:?}", other),
    }
    assert!(config(Some("t"), Some("g"), None).credentials().is_none());
    assert!(config(None, None, Some("e@x")).credentials().is_none());
    let service = CloudflareService::new(config(Some("t"), None, None));
    assert!(matches!(service.credentials, Credentials::UserAuthToken { .. }));
    assert_eq!(service.config.api_key, Some("t".to_string()));
}

#[test]
fn listing_of_an_account_has_its_path() {
    let request = ListDomains { params: ListDomainsParams { account: "abc".to_string() } };
    assert_eq!(request.path(), "accounts/abc/registrar/domains");
    assert_eq!(request.body(), None);
    assert_eq!(request.content_type(), None);
    assert_eq!(media_type_of(Some(RequestBodyKind::Json)), Some("application/json"));
    assert_eq!(media_type_of(Some(RequestBodyKind::Raw)), Some("application/octet-stream"));
    assert_eq!(media_type_of(Some(RequestBodyKind::MultiPart)), Some("multipart/form-data"));
    assert_eq!(media_type_of(None), None);
}

#[test]
fn integers_come_as_numbers_or_texts() {
    assert_eq!(string_or_int_to_option_i32(&Json::Null), Ok(None));
    assert_eq!(string_or_int_to_option_i32(&Json::unsigned(1)), Ok(Some(1)));
    assert_eq!(string_or_int_to_option_i32(&Json::signed(-7)), Ok(Some(-7)));
    assert_eq!(string_or_int_to_option_i32(&text("12")), Ok(Some(12)));
    assert_eq!(string_or_int_to_option_i32(&text("-12")), Ok(Some(-12)));
    assert_eq!(string_or_int_to_option_i32(&text("+3")), Ok(Some(3)));
    assert_eq!(string_or_int_to_option_i32(&text("1.5")), Err(IntegerError::InvalidText));
    assert_eq!(string_or_int_to_option_i32(&text("")), Err(IntegerError::InvalidText));
    assert_eq!(string_or_int_to_option_i32(&text("4294967296")), Err(IntegerError::InvalidText));
    assert_eq!(string_or_int_to_option_i32(&Json::Bool(true)), Ok(Some(1)));
    assert_eq!(string_or_int_to_option_i32(&Json::Bool(false)), Ok(Some(0)));
    assert_eq!(int_from_bool(true), 1);
    assert_eq!(int_from_bool(false), 0);
    assert_eq!(
        string_or_int_to_option_i32(&Json::Object(JsonObject::new())),
        Err(IntegerError::InvalidType)
    );
    let half = JsonDecimal::new(serde_json::Number::from_f64(0.5).unwrap()).unwrap();
    assert_eq!(
        string_or_int_to_option_i32(&Json::Number(JsonNumber::Decimal(half))),
        Err(IntegerError::InvalidType)
    );
    assert_eq!(string_or_int_to_option_i32(&Json::Array(vec![])), Err(IntegerError::InvalidType));
    assert_eq!(string_or_int_to_option_i32(&Json::unsigned(4_294_967_296)), Ok(Some(i32::MAX)));
    assert_eq!(string_or_int_to_option_i32(&Json::unsigned(u64::MAX)), Ok(Some(i32::MAX)));
    assert_eq!(string_or_int_to_option_i32(&Json::signed(i64::MIN)), Ok(Some(i32::MIN)));
    assert_eq!(int_from_u64(2_147_483_648), i32::MAX);
    assert_eq!(int_from_u64(2_147_483_647), i32::MAX);
    assert_eq!(int_from_u64(0), 0);
    assert_eq!(int_from_i64(-4_294_967_297), i32::MIN);
    assert_eq!(int_from_i64(-2_147_483_648), i32::MIN);
    assert_eq!(int_from_i64(41), 41);
    assert_eq!(integer_or_unknown(&text("7")), Some(7));
    assert_eq!(integer_or_unknown(&text("seven")), None);
    assert_eq!(integer_or_unknown(&Json::Array(vec![])), None);
    assert_eq!(integer_or_unknown(&Json::Bool(true)), Some(1));
    assert_eq!(integer_or_unknown(&Json::Null), None);
    assert_eq!(int_from_text("x"), Err(IntegerError::InvalidText));
    assert_eq!(int_from_text("9"), Ok(Some(9)));
}

#[test]
fn texts_read_as_integers_as_std_reads_them() {
    assert_eq!(parse_i32("1"), Some(1));
    assert_eq!(parse_i32("-2147483648"), Some(i32::MIN));
    assert_eq!(parse_i32("2147483647"), Some(i32::MAX));
    assert_eq!(parse_i32("2147483648"), None);
    assert_eq!(parse_i32("-2147483649"), None);
    assert_eq!(parse_i32("+007"), Some(7));
    for text in [
        "",
        "+",
        "-",
        "0",
        "-0",
        "+0",
        "00000000000000000000000012",
        "-00000000000000000000000012",
        "99999999999999999999999999999999",
        "-99999999999999999999999999999999",
        "2147483647",
        "2147483648",
        "-2147483648",
        "-2147483649",
        "4294967296",
        "12a",
        "a12",
        " 12",
        "12 ",
        "1_000",
        "+-1",
        "--1",
        "1-",
        "1.0",
        "1e3",
        "0x10",
        "١٢",
        "１２",
    ] {
        assert_eq!(parse_i32(text), text.parse::<i32>().ok(), "for {:?}", text);
    }
}

fn from_outside(value: &serde_json::Value) -> Json {
    match value {
        serde_json::Value::Null => Json::Null,
        serde_json::Value::Bool(flag) => Json::Bool(*flag),
        serde_json::Value::Number(number) => match (number.as_u64(), number.as_i64()) {
            (Some(n), _) => Json::unsigned(n),
            (None, Some(n)) => Json::signed(n),
            (None, None) => {
                Json::Number(JsonNumber::Decimal(JsonDecimal::new(number.clone()).unwrap()))
            }
        },
        serde_json::Value::String(text) => Json::String(text.clone()),
        serde_json::Value::Array(items) => Json::Array(items.iter().map(from_outside).collect()),
        serde_json::Value::Object(entries) => {
            let mut object = JsonObject::new();
            for (key, item) in entries {
                object.insert(key.clone(), from_outside(item));
            }
            Json::Object(object)
        }
    }
}

fn wire(text: &str) -> Json {
    from_outside(&serde_json::from_str(text).unwrap())
}

#[test]
fn porkbun_answer_is_read_from_the_wire() {
    let answer = wire(
        r#"{"status": "SUCCESS", "domains": [
            {"domain": "a.com"},
            {"domain": "b.com", "status": "ACTIVE", "tld": "com",
             "createDate": "2025-04-16 12:00:00", "expireDate": "2026-04-16 23:59:59",
             "securityLock": "1", "whoisPrivacy": "2", "autoRenew": true, "notLocal": 0},
            {"domain": "c.com", "autoRenew": 2, "whoisPrivacy": false, "securityLock": 4294967296,
             "status": 5, "expireDate": null, "notLocal": "no"},
            {"domain": "d.com", "autoRenew": 1.5, "whoisPrivacy": [1], "securityLock": {}}
        ]}"#,
    );
    let listing = PorkbunDomainData::from_wire(&answer).unwrap();
    assert_eq!(listing.status, "SUCCESS");
    assert_eq!(listing.domains.len(), 4);
    let a = &listing.domains[0];
    assert_eq!(a.domain, "a.com");
    assert_eq!((a.status.as_ref(), a.tld.as_ref()), (None, None));
    assert_eq!((a.create_date.as_ref(), a.expire_date.as_ref()), (None, None));
    assert_eq!((a.security_lock, a.whois_privacy, a.auto_renew, a.not_local), (None, None, None, None));
    let b = &listing.domains[1];
    assert_eq!(b.status, Some("ACTIVE".to_string()));
    assert_eq!(b.create_date, Some("2025-04-16 12:00:00".to_string()));
    assert_eq!(
        (b.security_lock, b.whois_privacy, b.auto_renew, b.not_local),
        (Some(1), Some(2), Some(1), Some(0))
    );
    let c = &listing.domains[2];
    assert_eq!((c.status.as_ref(), c.expire_date.as_ref()), (None, None));
    assert_eq!(
        (c.security_lock, c.whois_privacy, c.auto_renew, c.not_local),
        (Some(i32::MAX), Some(0), Some(2), None)
    );
    let d = &listing.domains[3];
    assert_eq!((d.security_lock, d.whois_privacy, d.auto_renew), (None, None, None));
    let records = listing.normalize().unwrap();
    let flags: Vec<_> = records.iter().map(|r| (r.ext_auto_renew, r.ext_whois_privacy)).collect();
    assert_eq!(
        flags,
        vec![
            (None, None),
            (Some(true), Some(true)),
            (Some(true), Some(false)),
            (None, None)
        ]
    );
    assert_eq!(records[1].ext_expiry_at, Some(Timestamp { secs: 1_776_383_999, nanos: 0 }));
}

#[test]
fn porkbun_answer_that_is_malformed_is_refused() {
    for text in [
        r#"[]"#,
        r#"{}"#,
        r#"{"domains": []}"#,
        r#"{"status": 1, "domains": []}"#,
        r#"{"status": "SUCCESS", "domains": {}}"#,
        r#"{"status": "SUCCESS", "domains": "none"}"#,
        r#"{"status": "SUCCESS", "domains": [{"status": "ACTIVE"}]}"#,
        r#"{"status": "SUCCESS", "domains": [{"domain": "a.com"}, {"domain": 7}]}"#,
        r#"{"status": "SUCCESS", "domains": [{"domain": "a.com"}, "b.com"]}"#,
    ] {
        assert!(
            matches!(PorkbunDomainData::from_wire(&wire(text)), Err(PorkbunError::ListMalformed)),
            "for {}",
            text
        );
    }
    let bare = PorkbunDomainData::from_wire(&wire(r#"{"status": "ERROR"}"#)).unwrap();
    assert!(bare.domains.is_empty());
    assert!(matches!(bare.normalize(), Err(PorkbunError::ListError(_))));
    let null = PorkbunDomainData::from_wire(&wire(r#"{"status": "SUCCESS", "domains": null}"#));
    assert!(null.unwrap().normalize().unwrap().is_empty());
    assert!(PorkbunDomain::from_wire(&wire(r#"{"domain": "x.io", "autoRenew": "1"}"#)).is_some());
    assert!(PorkbunDomain::from_wire(&wire(r#"{"autoRenew": "1"}"#)).is_none());
    assert!(PorkbunDomain::from_wire(&Json::Null).is_none());
}
