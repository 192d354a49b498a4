//! What the page of domains shows of each domain.

use vstd::prelude::*;
use vstd::string::*;
use crate::cmd::text_at;
use crate::json::text_under;
use crate::models::domain::{domain_views, Domain, DomainView};
use crate::seqs::{lemma_filter_none, lemma_filter_step};
use crate::time::{
    format_instant, formatted_instant, human_span, humanize_span, Timestamp,
};

verus! {

/// The class of the colour of a provider.
pub open spec fn provider_color(provider: Seq<char>) -> Seq<char> {
    if provider == "porkbun"@ {
        "text-[#EF7878]"@
    } else if provider == "cloudflare"@ {
        "text-[#F48120]"@
    } else {
        "text-gray-500"@
    }
}

/// The class of the colour of a provider.
pub fn provider_to_color(provider: &String) -> (r: &'static str)
    ensures
        r@ == provider_color(provider@),
{
    if provider.as_str().eq("porkbun") {
        "text-[#EF7878]"
    } else if provider.as_str().eq("cloudflare") {
        "text-[#F48120]"
    } else {
        "text-gray-500"
    }
}

/// Whether `at` comes before the instant that lies `days` days after `now`.
pub open spec fn is_within(at: Timestamp, now: Timestamp, days: int) -> bool {
    at.secs < now.secs + days * 86400 || (at.secs == now.secs + days * 86400 && at.nanos
        < now.nanos)
}

/// The class of the colour of an expiry, seen at `now`.
pub open spec fn expiry_color(expiry: Option<Timestamp>, now: Timestamp) -> Seq<char> {
    match expiry {
        Some(at) => if is_within(at, now, 0) {
            "text-red-500"@
        } else if is_within(at, now, 30) {
            "text-orange-500"@
        } else if is_within(at, now, 60) {
            "text-yellow-500"@
        } else {
            "text-neutral-500"@
        },
        None => "text-gray-500"@,
    }
}

/// Whether `at` comes before the instant that lies `days` days after `now`.
pub fn within(at: Timestamp, now: Timestamp, days: u32) -> (r: bool)
    ensures
        r == is_within(at, now, days as int),
{
    let limit: i128 = now.secs as i128 + days as i128 * 86400;
    let secs: i128 = at.secs as i128;
    secs < limit || (secs == limit && at.nanos < now.nanos)
}

/// The class of the colour of an expiry, seen at `now`: red once it has
/// passed, orange within 30 days, yellow within 60, and grey where it is
/// unknown.
pub fn expiry_to_color(expiry: &Option<Timestamp>, now: Timestamp) -> (r: &'static str)
    ensures
        r@ == expiry_color(*expiry, now),
{
    match expiry {
        Some(at) => {
            if within(*at, now, 0) {
                "text-red-500"
            } else if within(*at, now, 30) {
                "text-orange-500"
            } else if within(*at, now, 60) {
                "text-yellow-500"
            } else {
                "text-neutral-500"
            }
        },
        None => "text-gray-500",
    }
}

/// The address of a domain in Cloudflare's dashboard.
pub open spec fn cloudflare_url(account_id: Seq<char>, domain: Seq<char>) -> Seq<char> {
    "https://dash.cloudflare.com/"@ + account_id + "/registrar/domain/"@ + domain
}

/// The address of a domain in Cloudflare's dashboard.
pub fn format_cloudflare_url(account_id: &str, domain: &str) -> (r: String)
    ensures
        r@ == cloudflare_url(account_id@, domain@),
{
    let mut out = "https://dash.cloudflare.com/".to_owned();
    out.append(account_id);
    out.append("/registrar/domain/");
    out.append(domain);
    out
}

/// The class of the colour of a flag: green when it is set, red when it is
/// not or is unknown.
pub fn flag_to_color(flag: Option<bool>) -> (r: &'static str)
    ensures
        r@ == if flag == Some(true) {
            "text-green-500"@
        } else {
            "text-red-500"@
        },
{
    match flag {
        Some(true) => "text-green-500",
        _ => "text-red-500",
    }
}

/// Whether a domain has expired at `now`. A domain of unknown expiry has
/// not.
pub open spec fn has_expired(now: Timestamp) -> spec_fn(DomainView) -> bool {
    |d: DomainView| d.ext_expiry_at matches Some(at) && is_within(at, now, 0)
}

/// Whether a domain has yet to expire at `now`.
pub open spec fn is_active(now: Timestamp) -> spec_fn(DomainView) -> bool {
    |d: DomainView| !has_expired(now)(d)
}

/// Whether a domain expires before `days` days after `now` have passed. A
/// domain of unknown expiry counts as expiring at `now`.
pub open spec fn expires_within(now: Timestamp, days: int) -> spec_fn(DomainView) -> bool {
    |d: DomainView|
        match d.ext_expiry_at {
            Some(at) => is_within(at, now, days),
            None => days > 0,
        }
}

/// Whether a domain has expired at `now`.
pub fn expired(domain: &Domain, now: Timestamp) -> (r: bool)
    ensures
        r == has_expired(now)(domain@),
{
    match domain.ext_expiry_at {
        Some(at) => within(at, now, 0),
        None => false,
    }
}

/// The domains in two lists, each in their order: those that have expired
/// at `now`, and those that have not.
pub fn split_expired(domains: Vec<Domain>, now: Timestamp) -> (r: (Vec<Domain>, Vec<Domain>))
    ensures
        domain_views(r.0@) == domain_views(domains@).filter(has_expired(now)),
        domain_views(r.1@) == domain_views(domains@).filter(is_active(now)),
{
    let ghost all = domain_views(domains@);
    let mut gone: Vec<Domain> = Vec::new();
    let mut active: Vec<Domain> = Vec::new();
    let mut i: usize = 0;
    proof {
        lemma_filter_none(all, has_expired(now));
        lemma_filter_none(all, is_active(now));
        assert(domain_views(gone@) =~= Seq::<DomainView>::empty());
        assert(domain_views(active@) =~= Seq::<DomainView>::empty());
    }
    while i < domains.len()
        invariant
            i <= domains.len(),
            all == domain_views(domains@),
            domain_views(gone@) == all.take(i as int).filter(has_expired(now)),
            domain_views(active@) == all.take(i as int).filter(is_active(now)),
        decreases domains.len() - i,
    {
        let ghost gone_before = gone@;
        let ghost active_before = active@;
        proof {
            lemma_filter_step(all, i as int, has_expired(now));
            lemma_filter_step(all, i as int, is_active(now));
            assert(all[i as int] == domains[i as int]@);
        }
        if expired(&domains[i], now) {
            gone.push(domains[i].clone());
            assert(domain_views(gone@) =~= domain_views(gone_before).push(domains[i as int]@));
        } else {
            active.push(domains[i].clone());
            assert(domain_views(active@) =~= domain_views(active_before).push(
                domains[i as int]@,
            ));
        }
        i += 1;
    }
    assert(all.take(i as int) =~= all);
    (gone, active)
}

/// How many of the domains expire before `days` days after `now` have
/// passed.
pub fn count_expiring(domains: &Vec<Domain>, now: Timestamp, days: u32) -> (r: usize)
    ensures
        r == domain_views(domains@).filter(expires_within(now, days as int)).len(),
{
    let ghost all = domain_views(domains@);
    let ghost soon = expires_within(now, days as int);
    let mut count: usize = 0;
    let mut i: usize = 0;
    proof {
        lemma_filter_none(all, soon);
    }
    while i < domains.len()
        invariant
            i <= domains.len(),
            count <= i,
            all == domain_views(domains@),
            soon == expires_within(now, days as int),
            count == all.take(i as int).filter(soon).len(),
        decreases domains.len() - i,
    {
        proof {
            lemma_filter_step(all, i as int, soon);
            assert(all[i as int] == domains[i as int]@);
        }
        let hit = match domains[i].ext_expiry_at {
            Some(at) => within(at, now, days),
            None => days > 0,
        };
        if hit {
            count += 1;
        }
        i += 1;
    }
    assert(all.take(i as int) =~= all);
    count
}

/// The account of Cloudflare that a domain was listed under, as its
/// metadata tells it, and a dash where it does not.
pub fn account_id_of(domain: &Domain) -> (r: String)
    ensures
        r@ == match domain@.metadata {
            Some(m) => match text_under(m, "account_id"@) {
                Some(id) => id,
                None => "-"@,
            },
            None => "-"@,
        },
{
    match &domain.metadata {
        Some(m) => match text_at(m, "account_id") {
            Some(id) => id.clone(),
            None => "-".to_owned(),
        },
        None => "-".to_owned(),
    }
}

/// The span from `now` to a date in words, and a dash where the date is
/// unknown or cannot be written.
pub fn date_in_words(at: Option<Timestamp>, now: Timestamp) -> (r: String)
    ensures
        r@ == match at {
            Some(t) => match human_span(t, now) {
                Some(words) => words,
                None => "-"@,
            },
            None => "-"@,
        },
{
    match at {
        Some(t) => match humanize_span(t, now) {
            Some(words) => words,
            None => "-".to_owned(),
        },
        None => "-".to_owned(),
    }
}

/// A date as day, month, year and hour, and a dash where the date is
/// unknown or cannot be written.
pub fn date_in_short(at: Option<Timestamp>) -> (r: String)
    ensures
        r@ == match at {
            Some(t) => match formatted_instant(t.secs, t.nanos, "%d/%m/%y - %-I %P"@) {
                Some(text) => text,
                None => "-"@,
            },
            None => "-"@,
        },
{
    match at {
        Some(t) => match format_instant(t, "%d/%m/%y - %-I %P") {
            Some(text) => text,
            None => "-".to_owned(),
        },
        None => "-".to_owned(),
    }
}

} // verus!
