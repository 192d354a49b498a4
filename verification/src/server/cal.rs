//! The calendar of expiries.

use vstd::prelude::*;
use vstd::string::*;
use crate::models::domain::Domain;
use crate::seqs::{lemma_filter_none, lemma_filter_step};
use crate::text::{join, join_texts, text_views};
use crate::time::{day_start, display_instant, displayed_instant, truncate_to_day, Timestamp};

verus! {

#[derive(Clone, Copy, Debug)]
pub struct CalApi;

#[derive(Clone, Copy, Debug, PartialEq, Eq, Structural)]
pub struct CalendarConfig {
    pub enabled: Option<bool>,
    pub round_to_day: Option<bool>,
}

/// The day on which a domain expires: none where the expiry is unknown,
/// or is outside the range in which days are told.
pub open spec fn expiry_day(domain: Domain) -> Option<Timestamp> {
    match domain.ext_expiry_at {
        Some(at) => day_start(at.secs, at.nanos),
        None => None,
    }
}

/// The days on which some domain expires, each once, in the order in which
/// they first occur.
pub open spec fn distinct_days(domains: Seq<Domain>) -> Seq<Timestamp>
    decreases domains.len(),
{
    if domains.len() == 0 {
        Seq::empty()
    } else {
        let before = distinct_days(domains.drop_last());
        match expiry_day(domains.last()) {
            Some(day) => if before.contains(day) {
                before
            } else {
                before.push(day)
            },
            None => before,
        }
    }
}

/// Whether a domain expires on the given day.
pub open spec fn expires_on(day: Timestamp) -> spec_fn(Domain) -> bool {
    |d: Domain| expiry_day(d) == Some(day)
}

/// The names of the domains that expire on the given day, in their order.
pub open spec fn names_on(domains: Seq<Domain>, day: Timestamp) -> Seq<Seq<char>> {
    domains.filter(expires_on(day)).map_values(|d: Domain| d.name@)
}

/// The domains that expire on one day.
#[derive(Debug)]
pub struct ExpiryDay {
    pub day: Timestamp,
    pub names: Vec<String>,
}

/// Whether a batch holds the names that expire on its day.
pub open spec fn is_expiry_day(batch: ExpiryDay, domains: Seq<Domain>, day: Timestamp) -> bool {
    batch.day == day && text_views(batch.names@) == names_on(domains, day)
}

/// The day on which a domain expires.
pub fn day_of(domain: &Domain) -> (r: Option<Timestamp>)
    ensures
        r == expiry_day(*domain),
{
    match domain.ext_expiry_at {
        Some(at) => truncate_to_day(at),
        None => None,
    }
}

fn has_day(days: &Vec<Timestamp>, day: Timestamp) -> (r: bool)
    ensures
        r == days@.contains(day),
{
    let mut i: usize = 0;
    while i < days.len()
        invariant
            i <= days.len(),
            forall|j: int| 0 <= j < i ==> days[j] != day,
        decreases days.len() - i,
    {
        if days[i].secs == day.secs && days[i].nanos == day.nanos {
            return true;
        }
        i += 1;
    }
    false
}

/// The days on which some domain expires, each once, in the order in which
/// they first occur.
pub fn expiry_days(domains: &[Domain]) -> (r: Vec<Timestamp>)
    ensures
        r@ == distinct_days(domains@),
{
    let mut days: Vec<Timestamp> = Vec::new();
    let mut i: usize = 0;
    assert(domains@.take(0) =~= Seq::<Domain>::empty());
    while i < domains.len()
        invariant
            i <= domains.len(),
            days@ == distinct_days(domains@.take(i as int)),
        decreases domains.len() - i,
    {
        proof {
            let upto = domains@.take(i + 1);
            assert(upto.drop_last() =~= domains@.take(i as int));
            assert(upto.last() == domains[i as int]);
            let before = distinct_days(upto.drop_last());
            assert(distinct_days(upto) == match expiry_day(upto.last()) {
                Some(day) => if before.contains(day) {
                    before
                } else {
                    before.push(day)
                },
                None => before,
            });
        }
        match day_of(&domains[i]) {
            Some(day) => {
                if !has_day(&days, day) {
                    days.push(day);
                }
            },
            None => {},
        }
        i += 1;
    }
    assert(domains@.take(i as int) =~= domains@);
    days
}

/// The names of the domains that expire on the given day, in their order.
pub fn names_expiring_on(domains: &[Domain], day: Timestamp) -> (r: Vec<String>)
    ensures
        text_views(r@) == names_on(domains@, day),
{
    let ghost on = expires_on(day);
    let mut names: Vec<String> = Vec::new();
    let mut i: usize = 0;
    proof {
        lemma_filter_none(domains@, on);
        assert(text_views(names@) =~= domains@.take(0).filter(on).map_values(|d: Domain| d.name@));
    }
    while i < domains.len()
        invariant
            i <= domains.len(),
            on == expires_on(day),
            text_views(names@) == domains@.take(i as int).filter(on).map_values(
                |d: Domain| d.name@,
            ),
        decreases domains.len() - i,
    {
        let ghost before = names@;
        proof {
            lemma_filter_step(domains@, i as int, on);
        }
        if day_of(&domains[i]) == Some(day) {
            names.push(domains[i].name.clone());
            proof {
                let kept = domains@.take(i as int).filter(on);
                assert(text_views(names@) =~= text_views(before).push(domains[i as int].name@));
                assert(kept.push(domains[i as int]).map_values(|d: Domain| d.name@)
                    =~= kept.map_values(|d: Domain| d.name@).push(domains[i as int].name@));
            }
        }
        i += 1;
    }
    assert(domains@.take(i as int) =~= domains@);
    names
}

/// The domains by the day on which they expire: a batch for each day, in
/// the order in which the days first occur. A domain whose expiry is
/// unknown is in none.
pub fn generate_calendar(domains: &[Domain]) -> (r: Vec<ExpiryDay>)
    ensures
        r@.len() == distinct_days(domains@).len(),
        forall|k: int|
            0 <= k < r@.len() ==> is_expiry_day(
                #[trigger] r@[k],
                domains@,
                distinct_days(domains@)[k],
            ),
{
    let days = expiry_days(domains);
    let mut out: Vec<ExpiryDay> = Vec::new();
    let mut i: usize = 0;
    while i < days.len()
        invariant
            i <= days.len(),
            out.len() == i,
            days@ == distinct_days(domains@),
            forall|k: int| 0 <= k < i ==> is_expiry_day(#[trigger] out@[k], domains@, days@[k]),
        decreases days.len() - i,
    {
        out.push(ExpiryDay { day: days[i], names: names_expiring_on(domains, days[i]) });
        i += 1;
    }
    out
}

/// The title of a day in the calendar: how many domains expire, and when.
pub open spec fn is_day_summary(text: Seq<char>, count: usize, day: Timestamp) -> bool {
    exists|number: String, date: Seq<char>|
        {
            &&& vstd::string::to_string_from_display_ensures::<usize>(&count, number)
            &&& displayed_instant(day.secs, day.nanos) == Some(date)
            &&& text == #[trigger] (number@ + " domains expire on "@ + date)
        }
}

impl ExpiryDay {
    /// The title of the day: the number of domains, then the date. There is
    /// none for a day that cannot be written.
    pub fn summary(&self) -> (r: Option<String>)
        ensures
            match r {
                Some(text) => is_day_summary(text@, self.names.len(), self.day),
                None => displayed_instant(self.day.secs, self.day.nanos) is None,
            },
    {
        match display_instant(self.day) {
            Some(date) => {
                let count = self.names.len();
                let number = count.to_string();
                let mut out = number.clone();
                out.append(" domains expire on ");
                out.append(date.as_str());
                assert(out@ == number@ + " domains expire on "@ + date@);
                Some(out)
            },
            None => None,
        }
    }

    /// The names of the day's domains, one to a line.
    pub fn description(&self) -> (r: String)
        ensures
            r@ == join_texts(text_views(self.names@), "\n"@),
    {
        join(&self.names, "\n")
    }
}

} // verus!
