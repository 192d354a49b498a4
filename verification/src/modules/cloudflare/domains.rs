//! Cloudflare's listing of an account's domains, and the canonical record of
//! each.

use vstd::prelude::*;
use crate::json::{
    int_view, item_views, lemma_item_views, optional_text, text_json, texts_json, Json, JsonObject, JsonView,
};
use crate::text::text_views;
use crate::models::domain::{Domain, DomainView};
use crate::time::{read_instant, wire_instant};

verus! {

#[derive(Debug)]
pub struct CloudflareContact {
    pub administrator_id: u64,
    pub billing_id: u64,
    pub registrant_id: u64,
    pub technical_id: u64,
}

/// One domain as Cloudflare's registrar lists it.
#[derive(Debug)]
pub struct CloudflareDomain {
    pub actionable_metadata: Vec<String>,
    pub administrator_contact_id: u64,
    pub auto_renew: bool,
    pub available: bool,
    pub billing_contact_id: u64,
    pub can_register: bool,
    pub cloudflare_dns: bool,
    pub cloudflare_registration: bool,
    pub contacts: CloudflareContact,
    pub contacts_updated_at: String,
    pub cor_changes: Option<String>,
    pub cor_locked: bool,
    pub cor_locked_until: Option<String>,
    pub cor_responses_pending: u64,
    pub current_registrar: String,
    pub domain_move: Json,
    pub ds_records: Vec<Json>,
    pub email_verified: bool,
    pub expires_at: String,
    pub last_known_status: String,
    pub locked: bool,
    pub name: String,
    pub name_servers: Vec<String>,
    pub payment_expires_at: String,
    pub pending_transfer: bool,
    pub permissions: Vec<String>,
    pub policies: Json,
    pub premium_type: String,
    pub privacy: bool,
    pub registered_at: String,
    pub registered_billing_version: String,
    pub registrant_contact_id: u64,
    pub registry: String,
    pub registry_object_id: String,
    pub registry_statuses: String,
    pub supported_tld: bool,
    pub technical_contact_id: u64,
    pub transfer_conditions: Json,
}

/// The four contacts as a JSON object.
pub open spec fn contact_json(contact: CloudflareContact) -> JsonView {
    JsonView::Object(
        Map::<Seq<char>, JsonView>::empty().insert(
            "administrator_id"@,
            int_view(contact.administrator_id as int),
        ).insert("billing_id"@, int_view(contact.billing_id as int)).insert(
            "registrant_id"@,
            int_view(contact.registrant_id as int),
        ).insert("technical_id"@, int_view(contact.technical_id as int)),
    )
}

/// Some texts as a JSON array.
pub open spec fn list_json(texts: Vec<String>) -> JsonView {
    JsonView::Array(texts_json(text_views(texts@)))
}

/// The first half of the fields of a domain, each under its name.
pub open spec fn cloudflare_fields_head(raw: CloudflareDomain) -> Map<Seq<char>, JsonView> {
    Map::<Seq<char>, JsonView>::empty().insert(
        "actionable_metadata"@,
        list_json(raw.actionable_metadata),
    ).insert(
        "administrator_contact_id"@,
        int_view(raw.administrator_contact_id as int),
    ).insert("auto_renew"@, JsonView::Bool(raw.auto_renew)).insert(
        "available"@,
        JsonView::Bool(raw.available),
    ).insert("billing_contact_id"@, int_view(raw.billing_contact_id as int)).insert(
        "can_register"@,
        JsonView::Bool(raw.can_register),
    ).insert("cloudflare_dns"@, JsonView::Bool(raw.cloudflare_dns)).insert(
        "cloudflare_registration"@,
        JsonView::Bool(raw.cloudflare_registration),
    ).insert("contacts"@, contact_json(raw.contacts)).insert(
        "contacts_updated_at"@,
        JsonView::String(raw.contacts_updated_at@),
    ).insert("cor_changes"@, text_json(optional_text(raw.cor_changes))).insert(
        "cor_locked"@,
        JsonView::Bool(raw.cor_locked),
    ).insert("cor_locked_until"@, text_json(optional_text(raw.cor_locked_until))).insert(
        "cor_responses_pending"@,
        int_view(raw.cor_responses_pending as int),
    ).insert("current_registrar"@, JsonView::String(raw.current_registrar@)).insert(
        "domain_move"@,
        raw.domain_move@,
    ).insert("ds_records"@, JsonView::Array(item_views(raw.ds_records@))).insert(
        "email_verified"@,
        JsonView::Bool(raw.email_verified),
    ).insert("expires_at"@, JsonView::String(raw.expires_at@))
}

/// All the fields of a domain, each under its name.
pub open spec fn cloudflare_fields(raw: CloudflareDomain) -> Map<Seq<char>, JsonView> {
    cloudflare_fields_head(raw).insert(
        "last_known_status"@,
        JsonView::String(raw.last_known_status@),
    ).insert("locked"@, JsonView::Bool(raw.locked)).insert(
        "name"@,
        JsonView::String(raw.name@),
    ).insert("name_servers"@, list_json(raw.name_servers)).insert(
        "payment_expires_at"@,
        JsonView::String(raw.payment_expires_at@),
    ).insert("pending_transfer"@, JsonView::Bool(raw.pending_transfer)).insert(
        "permissions"@,
        list_json(raw.permissions),
    ).insert("policies"@, raw.policies@).insert(
        "premium_type"@,
        JsonView::String(raw.premium_type@),
    ).insert("privacy"@, JsonView::Bool(raw.privacy)).insert(
        "registered_at"@,
        JsonView::String(raw.registered_at@),
    ).insert(
        "registered_billing_version"@,
        JsonView::String(raw.registered_billing_version@),
    ).insert(
        "registrant_contact_id"@,
        int_view(raw.registrant_contact_id as int),
    ).insert("registry"@, JsonView::String(raw.registry@)).insert(
        "registry_object_id"@,
        JsonView::String(raw.registry_object_id@),
    ).insert("registry_statuses"@, JsonView::String(raw.registry_statuses@)).insert(
        "supported_tld"@,
        JsonView::Bool(raw.supported_tld),
    ).insert(
        "technical_contact_id"@,
        int_view(raw.technical_contact_id as int),
    ).insert("transfer_conditions"@, raw.transfer_conditions@)
}

/// The metadata that is kept of a domain of Cloudflare: all its fields, and
/// the account that it was listed under.
pub open spec fn cloudflare_metadata(
    raw: CloudflareDomain,
    account_id: Seq<char>,
    account_name: Seq<char>,
) -> Map<Seq<char>, JsonView> {
    cloudflare_fields(raw).insert("account_id"@, JsonView::String(account_id)).insert(
        "account_name"@,
        JsonView::String(account_name),
    )
}

/// The canonical record of a domain of Cloudflare. The store fills the two
/// last fields.
pub open spec fn cloudflare_record(
    raw: CloudflareDomain,
    account_id: Seq<char>,
    account_name: Seq<char>,
) -> DomainView {
    DomainView {
        name: raw.name@,
        provider: "cloudflare"@,
        external_id: Some(raw.name@),
        ext_expiry_at: wire_instant(raw.expires_at@),
        ext_registered_at: wire_instant(raw.registered_at@),
        ext_auto_renew: Some(raw.auto_renew),
        ext_whois_privacy: Some(raw.privacy),
        metadata: Some(JsonView::Object(cloudflare_metadata(raw, account_id, account_name))),
        created_at: None,
        updated_at: None,
    }
}

fn clone_items(items: &Vec<Json>) -> (r: Json)
    ensures
        r@ == JsonView::Array(item_views(items@)),
{
    let mut copy: Vec<Json> = Vec::new();
    let mut i: usize = 0;
    while i < items.len()
        invariant
            i <= items.len(),
            copy.len() == i,
            forall|j: int| 0 <= j < i ==> (#[trigger] copy[j])@ == items[j]@,
        decreases items.len() - i,
    {
        copy.push(items[i].clone());
        i += 1;
    }
    proof {
        lemma_item_views(copy@);
        lemma_item_views(items@);
        assert(item_views(copy@) =~= item_views(items@));
    }
    Json::Array(copy)
}

impl CloudflareContact {
    /// The four contacts as a JSON object.
    pub fn to_json(&self) -> (r: Json)
        ensures
            r@ == contact_json(*self),
    {
        let mut o = JsonObject::new();
        o.insert("administrator_id".to_owned(), Json::unsigned(self.administrator_id));
        o.insert("billing_id".to_owned(), Json::unsigned(self.billing_id));
        o.insert("registrant_id".to_owned(), Json::unsigned(self.registrant_id));
        o.insert("technical_id".to_owned(), Json::unsigned(self.technical_id));
        Json::Object(o)
    }
}

impl CloudflareDomain {
    fn fields_head(&self) -> (o: JsonObject)
        ensures
            o@ == cloudflare_fields_head(*self),
    {
        let mut o = JsonObject::new();
        o.insert("actionable_metadata".to_owned(), Json::texts(&self.actionable_metadata));
        o.insert(
            "administrator_contact_id".to_owned(),
            Json::unsigned(self.administrator_contact_id),
        );
        o.insert("auto_renew".to_owned(), Json::Bool(self.auto_renew));
        o.insert("available".to_owned(), Json::Bool(self.available));
        o.insert("billing_contact_id".to_owned(), Json::unsigned(self.billing_contact_id));
        o.insert("can_register".to_owned(), Json::Bool(self.can_register));
        o.insert("cloudflare_dns".to_owned(), Json::Bool(self.cloudflare_dns));
        o.insert("cloudflare_registration".to_owned(), Json::Bool(self.cloudflare_registration));
        o.insert("contacts".to_owned(), self.contacts.to_json());
        o.insert("contacts_updated_at".to_owned(), Json::text(self.contacts_updated_at.as_str()));
        o.insert("cor_changes".to_owned(), Json::optional_text(&self.cor_changes));
        o.insert("cor_locked".to_owned(), Json::Bool(self.cor_locked));
        o.insert("cor_locked_until".to_owned(), Json::optional_text(&self.cor_locked_until));
        o.insert("cor_responses_pending".to_owned(), Json::unsigned(self.cor_responses_pending));
        o.insert("current_registrar".to_owned(), Json::text(self.current_registrar.as_str()));
        o.insert("domain_move".to_owned(), self.domain_move.clone());
        o.insert("ds_records".to_owned(), clone_items(&self.ds_records));
        o.insert("email_verified".to_owned(), Json::Bool(self.email_verified));
        o.insert("expires_at".to_owned(), Json::text(self.expires_at.as_str()));
        o
    }

    /// All the fields of the domain as a JSON object, each under its name.
    pub fn to_json(&self) -> (o: JsonObject)
        ensures
            o@ == cloudflare_fields(*self),
    {
        let mut o = self.fields_head();
        o.insert("last_known_status".to_owned(), Json::text(self.last_known_status.as_str()));
        o.insert("locked".to_owned(), Json::Bool(self.locked));
        o.insert("name".to_owned(), Json::text(self.name.as_str()));
        o.insert("name_servers".to_owned(), Json::texts(&self.name_servers));
        o.insert("payment_expires_at".to_owned(), Json::text(self.payment_expires_at.as_str()));
        o.insert("pending_transfer".to_owned(), Json::Bool(self.pending_transfer));
        o.insert("permissions".to_owned(), Json::texts(&self.permissions));
        o.insert("policies".to_owned(), self.policies.clone());
        o.insert("premium_type".to_owned(), Json::text(self.premium_type.as_str()));
        o.insert("privacy".to_owned(), Json::Bool(self.privacy));
        o.insert("registered_at".to_owned(), Json::text(self.registered_at.as_str()));
        o.insert(
            "registered_billing_version".to_owned(),
            Json::text(self.registered_billing_version.as_str()),
        );
        o.insert("registrant_contact_id".to_owned(), Json::unsigned(self.registrant_contact_id));
        o.insert("registry".to_owned(), Json::text(self.registry.as_str()));
        o.insert("registry_object_id".to_owned(), Json::text(self.registry_object_id.as_str()));
        o.insert("registry_statuses".to_owned(), Json::text(self.registry_statuses.as_str()));
        o.insert("supported_tld".to_owned(), Json::Bool(self.supported_tld));
        o.insert("technical_contact_id".to_owned(), Json::unsigned(self.technical_contact_id));
        o.insert("transfer_conditions".to_owned(), self.transfer_conditions.clone());
        o
    }

    /// The canonical record of the domain, listed under the given account.
    /// A date that does not parse is unknown.
    pub fn normalize(&self, account_id: &str, account_name: &str) -> (r: Domain)
        ensures
            r@ == cloudflare_record(*self, account_id@, account_name@),
    {
        let mut metadata = self.to_json();
        metadata.insert("account_id".to_owned(), Json::text(account_id));
        metadata.insert("account_name".to_owned(), Json::text(account_name));
        Domain {
            name: self.name.clone(),
            provider: "cloudflare".to_owned(),
            external_id: Some(self.name.clone()),
            ext_expiry_at: read_instant(self.expires_at.as_str()),
            ext_registered_at: read_instant(self.registered_at.as_str()),
            ext_auto_renew: Some(self.auto_renew),
            ext_whois_privacy: Some(self.privacy),
            metadata: Some(Json::Object(metadata)),
            created_at: None,
            updated_at: None,
        }
    }
}

} // verus!
