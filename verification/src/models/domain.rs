//! The canonical domain record.

use vstd::prelude::*;
use crate::json::{flag_json, text_json, Json, JsonView};
use crate::time::{instant_text, rfc3339_text, Timestamp};

verus! {

/// One domain as a provider reports it. Name and provider together identify
/// the record; the two last fields belong to the store.
#[derive(Debug)]
pub struct Domain {
    pub name: String,
    pub provider: String,
    pub external_id: Option<String>,
    pub ext_expiry_at: Option<Timestamp>,
    pub ext_registered_at: Option<Timestamp>,
    pub ext_auto_renew: Option<bool>,
    pub ext_whois_privacy: Option<bool>,
    pub metadata: Option<Json>,
    pub created_at: Option<Timestamp>,
    pub updated_at: Option<Timestamp>,
}

/// What a record stands for.
pub ghost struct DomainView {
    pub name: Seq<char>,
    pub provider: Seq<char>,
    pub external_id: Option<Seq<char>>,
    pub ext_expiry_at: Option<Timestamp>,
    pub ext_registered_at: Option<Timestamp>,
    pub ext_auto_renew: Option<bool>,
    pub ext_whois_privacy: Option<bool>,
    pub metadata: Option<JsonView>,
    pub created_at: Option<Timestamp>,
    pub updated_at: Option<Timestamp>,
}

impl View for Domain {
    type V = DomainView;

    open spec fn view(&self) -> DomainView {
        DomainView {
            name: self.name@,
            provider: self.provider@,
            external_id: match self.external_id {
                Some(id) => Some(id@),
                None => None,
            },
            ext_expiry_at: self.ext_expiry_at,
            ext_registered_at: self.ext_registered_at,
            ext_auto_renew: self.ext_auto_renew,
            ext_whois_privacy: self.ext_whois_privacy,
            metadata: match self.metadata {
                Some(m) => Some(m@),
                None => None,
            },
            created_at: self.created_at,
            updated_at: self.updated_at,
        }
    }
}

/// The views of some records, in order.
pub open spec fn domain_views(records: Seq<Domain>) -> Seq<DomainView> {
    records.map_values(|d: Domain| d@)
}

/// An optional instant as a JSON value: its RFC 3339 text, or null.
pub open spec fn time_json(at: Option<Timestamp>) -> JsonView {
    match at {
        Some(t) => text_json(rfc3339_text(t.secs, t.nanos)),
        None => JsonView::Null,
    }
}

/// An optional JSON value as a JSON value: itself, or null.
pub open spec fn optional_json(value: Option<JsonView>) -> JsonView {
    match value {
        Some(v) => v,
        None => JsonView::Null,
    }
}

/// The canonical key-to-value form of a record: every field under its name,
/// the names in alphabetical order.
pub open spec fn field_views(d: DomainView) -> Seq<(Seq<char>, JsonView)> {
    seq![
        ("created_at"@, time_json(d.created_at)),
        ("ext_auto_renew"@, flag_json(d.ext_auto_renew)),
        ("ext_expiry_at"@, time_json(d.ext_expiry_at)),
        ("ext_registered_at"@, time_json(d.ext_registered_at)),
        ("ext_whois_privacy"@, flag_json(d.ext_whois_privacy)),
        ("external_id"@, text_json(d.external_id)),
        ("metadata"@, optional_json(d.metadata)),
        ("name"@, JsonView::String(d.name)),
        ("provider"@, JsonView::String(d.provider)),
        ("updated_at"@, time_json(d.updated_at)),
    ]
}

/// The views of some fields, in order.
pub open spec fn entry_views(fields: Seq<(String, Json)>) -> Seq<(Seq<char>, JsonView)> {
    fields.map_values(|f: (String, Json)| (f.0@, f.1@))
}

/// An optional instant as a JSON value.
pub fn time_value(at: Option<Timestamp>) -> (r: Json)
    ensures
        r@ == time_json(at),
{
    match at {
        Some(t) => match instant_text(t) {
            Some(text) => Json::String(text),
            None => Json::Null,
        },
        None => Json::Null,
    }
}

impl Clone for Domain {
    fn clone(&self) -> (r: Domain)
        ensures
            r@ == self@,
    {
        Domain {
            name: self.name.clone(),
            provider: self.provider.clone(),
            external_id: match &self.external_id {
                Some(id) => Some(id.clone()),
                None => None,
            },
            ext_expiry_at: self.ext_expiry_at,
            ext_registered_at: self.ext_registered_at,
            ext_auto_renew: self.ext_auto_renew,
            ext_whois_privacy: self.ext_whois_privacy,
            metadata: match &self.metadata {
                Some(m) => Some(m.clone()),
                None => None,
            },
            created_at: self.created_at,
            updated_at: self.updated_at,
        }
    }
}

impl Domain {
    /// The canonical key-to-value form of the record.
    pub fn fields(&self) -> (r: Vec<(String, Json)>)
        ensures
            entry_views(r@) == field_views(self@),
    {
        let mut out: Vec<(String, Json)> = Vec::new();
        out.push(("created_at".to_owned(), time_value(self.created_at)));
        out.push(("ext_auto_renew".to_owned(), Json::optional_flag(self.ext_auto_renew)));
        out.push(("ext_expiry_at".to_owned(), time_value(self.ext_expiry_at)));
        out.push(("ext_registered_at".to_owned(), time_value(self.ext_registered_at)));
        out.push(("ext_whois_privacy".to_owned(), Json::optional_flag(self.ext_whois_privacy)));
        out.push(("external_id".to_owned(), Json::optional_text(&self.external_id)));
        out.push(
            (
                "metadata".to_owned(),
                match &self.metadata {
                    Some(m) => m.clone(),
                    None => Json::Null,
                },
            ),
        );
        out.push(("name".to_owned(), Json::String(self.name.clone())));
        out.push(("provider".to_owned(), Json::String(self.provider.clone())));
        out.push(("updated_at".to_owned(), time_value(self.updated_at)));
        assert(entry_views(out@) =~= field_views(self@));
        out
    }
}

} // verus!
