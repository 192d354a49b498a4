//! Porkbun's listing of domains, and the canonical record of each.

use vstd::prelude::*;
use crate::cmd::text_at;
use crate::json::{
    int_json, int_view, item_views, lemma_item_views, optional_text, text_json, text_under, Json,
    JsonObject, JsonView,
};
use crate::modules::domains::{bool_from_value, coerce_bool, value_or_null};
use crate::util::serde_strint::{integer_or_unknown, wire_integer_or_unknown};
use crate::models::domain::{domain_views, Domain, DomainView};
use crate::modules::porkbun::PorkbunError;
use crate::time::{read_instant, wire_instant, Timestamp};

verus! {

/// One domain as Porkbun lists it. A flag is set when its number is not
/// zero.
#[derive(Debug)]
pub struct PorkbunDomain {
    pub domain: String,
    pub status: Option<String>,
    pub tld: Option<String>,
    pub create_date: Option<String>,
    pub expire_date: Option<String>,
    pub security_lock: Option<i32>,
    pub whois_privacy: Option<i32>,
    pub auto_renew: Option<i32>,
    pub not_local: Option<i32>,
}

/// The answer to a request for the listing.
#[derive(Debug)]
pub struct PorkbunDomainData {
    pub status: String,
    pub domains: Vec<PorkbunDomain>,
}

/// The instant that a date of Porkbun names: unknown where there is no date,
/// and where the date reads in neither of the two forms of dates.
pub open spec fn porkbun_instant(date: Option<Seq<char>>) -> Option<Timestamp> {
    match date {
        Some(text) => wire_instant(text),
        None => None,
    }
}

/// A flag of Porkbun: the number read as a flag, which is set when it is
/// not zero, and unknown where there is none.
pub open spec fn porkbun_flag(number: Option<i32>) -> Option<bool> {
    match number {
        Some(n) => Some(coerce_bool(int_view(n as int))),
        None => None,
    }
}

/// A number of Porkbun as an integer.
pub open spec fn optional_int(number: Option<i32>) -> Option<int> {
    match number {
        Some(n) => Some(n as int),
        None => None,
    }
}

/// The metadata that is kept of a domain of Porkbun.
pub open spec fn porkbun_metadata(raw: PorkbunDomain) -> Map<Seq<char>, JsonView> {
    Map::<Seq<char>, JsonView>::empty().insert(
        "status"@,
        text_json(optional_text(raw.status)),
    ).insert("tld"@, text_json(optional_text(raw.tld))).insert(
        "create_date"@,
        text_json(optional_text(raw.create_date)),
    ).insert("expire_date"@, text_json(optional_text(raw.expire_date))).insert(
        "security_lock"@,
        int_json(optional_int(raw.security_lock)),
    )
}

/// The canonical record of a domain of Porkbun. The store fills the two last
/// fields.
pub open spec fn porkbun_record(raw: PorkbunDomain) -> DomainView {
    DomainView {
        name: raw.domain@,
        provider: "porkbun"@,
        external_id: Some(raw.domain@),
        ext_expiry_at: porkbun_instant(optional_text(raw.expire_date)),
        ext_registered_at: porkbun_instant(optional_text(raw.create_date)),
        ext_auto_renew: porkbun_flag(raw.auto_renew),
        ext_whois_privacy: porkbun_flag(raw.whois_privacy),
        metadata: Some(JsonView::Object(porkbun_metadata(raw))),
        created_at: None,
        updated_at: None,
    }
}

/// The canonical records of some domains of Porkbun, in order.
pub open spec fn porkbun_records(raw: Seq<PorkbunDomain>) -> Seq<DomainView> {
    raw.map_values(|d: PorkbunDomain| porkbun_record(d))
}

fn instant_of(date: &Option<String>) -> (r: Option<Timestamp>)
    ensures
        r == porkbun_instant(optional_text(*date)),
{
    match date {
        Some(text) => read_instant(text.as_str()),
        None => None,
    }
}

fn flag_of(number: Option<i32>) -> (r: Option<bool>)
    ensures
        r == porkbun_flag(number),
{
    match number {
        Some(n) => Some(bool_from_value(&Json::signed(n as i64))),
        None => None,
    }
}

impl PorkbunDomain {
    /// The canonical record of the domain. A date that does not parse is
    /// unknown.
    pub fn normalize(&self) -> (r: Domain)
        ensures
            r@ == porkbun_record(*self),
    {
        let mut metadata = JsonObject::new();
        metadata.insert("status".to_owned(), Json::optional_text(&self.status));
        metadata.insert("tld".to_owned(), Json::optional_text(&self.tld));
        metadata.insert("create_date".to_owned(), Json::optional_text(&self.create_date));
        metadata.insert("expire_date".to_owned(), Json::optional_text(&self.expire_date));
        metadata.insert("security_lock".to_owned(), Json::optional_int(self.security_lock));
        Domain {
            name: self.domain.clone(),
            provider: "porkbun".to_owned(),
            external_id: Some(self.domain.clone()),
            ext_expiry_at: instant_of(&self.expire_date),
            ext_registered_at: instant_of(&self.create_date),
            ext_auto_renew: flag_of(self.auto_renew),
            ext_whois_privacy: flag_of(self.whois_privacy),
            metadata: Some(Json::Object(metadata)),
            created_at: None,
            updated_at: None,
        }
    }
}

impl PorkbunDomainData {
    /// The canonical records of the listing, in its order, when the status
    /// is `SUCCESS`, and else the status as an error.
    pub fn normalize(&self) -> (r: Result<Vec<Domain>, PorkbunError>)
        ensures
            match r {
                Ok(records) => self.status@ == "SUCCESS"@ && domain_views(records@)
                    == porkbun_records(self.domains@),
                Err(e) => self.status@ != "SUCCESS"@ && (e matches PorkbunError::ListError(status)
                    && status@ == self.status@),
            },
    {
        if !self.status.as_str().eq("SUCCESS") {
            return Err(PorkbunError::ListError(self.status.clone()));
        }
        let mut records: Vec<Domain> = Vec::new();
        let mut i: usize = 0;
        while i < self.domains.len()
            invariant
                i <= self.domains.len(),
                records.len() == i,
                forall|j: int|
                    0 <= j < i ==> (#[trigger] records[j])@ == porkbun_record(self.domains[j]),
            decreases self.domains.len() - i,
        {
            records.push(self.domains[i].normalize());
            i += 1;
        }
        assert(domain_views(records@) =~= porkbun_records(self.domains@));
        Ok(records)
    }
}

/// The value under a key of an entry of the wire: null where the entry is
/// no object or lacks the key.
pub open spec fn wire_value(entry: JsonView, key: Seq<char>) -> JsonView {
    match entry {
        JsonView::Object(fields) => value_or_null(fields, key),
        _ => JsonView::Null,
    }
}

/// The optional integer under a key of an entry of the wire: unknown where
/// the key is missing, and where its value is malformed.
pub open spec fn wire_number(entry: JsonView, key: Seq<char>) -> Option<i32> {
    wire_integer_or_unknown(wire_value(entry, key))
}

/// Whether a domain is what an entry of the wire holds: the name under
/// `domain`, and every other field under its key where it is well formed
/// there, and unknown where it is missing or malformed.
pub open spec fn is_porkbun_entry(d: PorkbunDomain, entry: JsonView) -> bool {
    &&& text_under(entry, "domain"@) == Some(d.domain@)
    &&& optional_text(d.status) == text_under(entry, "status"@)
    &&& optional_text(d.tld) == text_under(entry, "tld"@)
    &&& optional_text(d.create_date) == text_under(entry, "createDate"@)
    &&& optional_text(d.expire_date) == text_under(entry, "expireDate"@)
    &&& d.security_lock == wire_number(entry, "securityLock"@)
    &&& d.whois_privacy == wire_number(entry, "whoisPrivacy"@)
    &&& d.auto_renew == wire_number(entry, "autoRenew"@)
    &&& d.not_local == wire_number(entry, "notLocal"@)
}

/// The items of the listing in an answer of the wire: what stands under
/// `domains`, none where nothing stands there, and no listing where
/// something else than an array does.
pub open spec fn wire_entries(answer: JsonView) -> Option<Seq<JsonView>> {
    match wire_value(answer, "domains"@) {
        JsonView::Array(items) => Some(items),
        JsonView::Null => Some(Seq::empty()),
        _ => None,
    }
}

/// Whether an answer of the wire is well formed: a status, and domains
/// that bear a name each.
pub open spec fn is_porkbun_answer(answer: JsonView) -> bool {
    &&& text_under(answer, "status"@) is Some
    &&& wire_entries(answer) matches Some(items) && forall|i: int|
        0 <= i < items.len() ==> text_under(#[trigger] items[i], "domain"@) is Some
}

fn optional_text_at(entry: &Json, key: &str) -> (r: Option<String>)
    ensures
        optional_text(r) == text_under(entry@, key@),
{
    match text_at(entry, key) {
        Some(text) => Some(text.clone()),
        None => None,
    }
}

fn number_at(entry: &Json, key: &str) -> (r: Option<i32>)
    ensures
        r == wire_number(entry@, key@),
{
    match entry {
        Json::Object(fields) => match fields.get(key) {
            Some(value) => integer_or_unknown(value),
            None => None,
        },
        _ => None,
    }
}

impl PorkbunDomain {
    /// The domain that an entry of the wire holds, where it bears a name.
    /// A field that is missing or malformed is unknown.
    pub fn from_wire(entry: &Json) -> (r: Option<PorkbunDomain>)
        ensures
            match r {
                Some(d) => is_porkbun_entry(d, entry@),
                None => text_under(entry@, "domain"@) is None,
            },
    {
        match text_at(entry, "domain") {
            Some(name) => Some(
                PorkbunDomain {
                    domain: name.clone(),
                    status: optional_text_at(entry, "status"),
                    tld: optional_text_at(entry, "tld"),
                    create_date: optional_text_at(entry, "createDate"),
                    expire_date: optional_text_at(entry, "expireDate"),
                    security_lock: number_at(entry, "securityLock"),
                    whois_privacy: number_at(entry, "whoisPrivacy"),
                    auto_renew: number_at(entry, "autoRenew"),
                    not_local: number_at(entry, "notLocal"),
                },
            ),
            None => None,
        }
    }
}

impl PorkbunDomainData {
    /// The answer that the wire holds, where it is well formed.
    pub fn from_wire(answer: &Json) -> (r: Result<PorkbunDomainData, PorkbunError>)
        ensures
            match r {
                Ok(data) => {
                    &&& is_porkbun_answer(answer@)
                    &&& text_under(answer@, "status"@) == Some(data.status@)
                    &&& data.domains@.len() == wire_entries(answer@)->0.len()
                    &&& forall|i: int|
                        0 <= i < data.domains@.len() ==> is_porkbun_entry(
                            #[trigger] data.domains@[i],
                            wire_entries(answer@)->0[i],
                        )
                },
                Err(e) => !is_porkbun_answer(answer@) && e == PorkbunError::ListMalformed,
            },
    {
        let status = match text_at(answer, "status") {
            Some(text) => text.clone(),
            None => {
                return Err(PorkbunError::ListMalformed);
            },
        };
        let mut domains: Vec<PorkbunDomain> = Vec::new();
        let listed = match answer {
            Json::Object(fields) => fields.get("domains"),
            _ => None,
        };
        match listed {
            None => {},
            Some(Json::Null) => {},
            Some(Json::Array(items)) => {
                proof {
                    lemma_item_views(items@);
                    assert(wire_entries(answer@) == Some(item_views(items@)));
                }
                let mut i: usize = 0;
                while i < items.len()
                    invariant
                        i <= items.len(),
                        domains.len() == i,
                        wire_entries(answer@) == Some(item_views(items@)),
                        text_under(answer@, "status"@) is Some,
                        item_views(items@).len() == items.len(),
                        forall|j: int|
                            0 <= j < items.len() ==> (#[trigger] item_views(items@)[j])
                                == items[j]@,
                        forall|j: int|
                            0 <= j < i ==> is_porkbun_entry(
                                #[trigger] domains@[j],
                                item_views(items@)[j],
                            ),
                    decreases items.len() - i,
                {
                    match PorkbunDomain::from_wire(&items[i]) {
                        Some(domain) => domains.push(domain),
                        None => {
                            assert(text_under(item_views(items@)[i as int], "domain"@) is None);
                            return Err(PorkbunError::ListMalformed);
                        },
                    }
                    i += 1;
                }
                assert forall|j: int| 0 <= j < item_views(items@).len() implies text_under(
                    #[trigger] item_views(items@)[j],
                    "domain"@,
                ) is Some by {
                    assert(is_porkbun_entry(domains@[j], item_views(items@)[j]));
                }
            },
            Some(_) => {
                return Err(PorkbunError::ListMalformed);
            },
        }
        Ok(PorkbunDomainData { status, domains })
    }
}

} // verus!
