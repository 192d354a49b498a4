//! The listing of the stored domains as CSV.

use vstd::prelude::*;
use crate::cmd::{csv_record, csv_record_of, ls_header};
use crate::models::domain::{domain_views, Domain, DomainView};
use crate::text::text_views;
use crate::time::Timestamp;

verus! {

/// A `csv::Writer` into memory, which Verus sees through the names below.
#[verifier::external_body]
pub struct CsvWriter {
    inner: csv::Writer<Vec<u8>>,
}

/// The records that were written to a `csv::Writer`, in order.
pub uninterp spec fn csv_written(writer: CsvWriter) -> Seq<Seq<Seq<char>>>;

/// The text that a `csv::Writer` with default settings gives for the
/// records that were written to it: `None` where it fails to hand it out.
pub uninterp spec fn csv_text(records: Seq<Seq<Seq<char>>>) -> Option<Seq<char>>;

/// Calls `csv::Writer::from_writer` on an empty vector of bytes: a writer to
/// which nothing was written, and which takes a record of any length.
#[verifier::external_body]
pub(crate) fn csv_writer() -> (writer: CsvWriter)
    ensures
        csv_written(writer) == Seq::<Seq<Seq<char>>>::empty(),
        forall|n: nat| #[trigger] csv_takes(writer, n),
{
    CsvWriter { inner: csv::Writer::from_writer(Vec::new()) }
}

/// Calls `csv::Writer::write_record`, which returns `Ok` or `UnequalLengths`.
/// Claimed: a record that is taken stands behind the earlier ones, and from
/// then on the writer takes the records of as many fields, and no others.
#[verifier::external_body]
pub(crate) fn csv_write(writer: &mut CsvWriter, record: &Vec<String>) -> (done: bool)
    ensures
        done == csv_takes(*old(writer), record@.len()),
        done ==> csv_written(*final(writer)) == csv_written(*old(writer)).push(text_views(record@)),
        done ==> forall|n: nat| #[trigger] csv_takes(*final(writer), n) == (n == record@.len()),
{
    writer.inner.write_record(record).is_ok()
}

/// Calls `csv::Writer::into_inner`, which flushes, and reads the bytes as
/// UTF-8. Claimed: the text depends on the written records alone.
#[verifier::external_body]
pub(crate) fn csv_finish(writer: CsvWriter) -> (text: Option<String>)
    ensures
        match text {
            Some(t) => csv_text(csv_written(writer)) == Some(t@),
            None => csv_text(csv_written(writer)) is None,
        },
{
    match writer.inner.into_inner() {
        Ok(bytes) => String::from_utf8(bytes).ok(),
        Err(_) => None,
    }
}

/// The records of a listing: the header, then the six cells of each
/// domain.
pub open spec fn csv_records_of(domains: Seq<DomainView>, exact_dates: bool, now: Timestamp) -> Seq<
    Seq<Seq<char>>,
> {
    seq![seq!["Name"@, "Provider"@, "Status"@, "Expiry"@, "Registered"@, "Auto Renew"@]]
        + domains.map_values(|d: DomainView| csv_record_of(d, exact_dates, now))
}

/// The listing of some domains as CSV, seen at `now`: a header, then a
/// record for each domain. The writer takes every record, as all have six
/// fields; the listing is the text that it then hands out, if it does.
pub fn csv_listing(domains: &[Domain], exact_dates: bool, now: Timestamp) -> (r: Option<String>)
    ensures
        match r {
            Some(text) => csv_text(csv_records_of(domain_views(domains@), exact_dates, now))
                == Some(text@),
            None => csv_text(csv_records_of(domain_views(domains@), exact_dates, now)) is None,
        },
{
    let mut writer = csv_writer();
    let header = ls_header();
    assert(text_views(header@).len() == 6);
    let taken = csv_write(&mut writer, &header);
    assert(taken);
    let ghost all = csv_records_of(domain_views(domains@), exact_dates, now);
    let mut i: usize = 0;
    assert(csv_written(writer) =~= all.take(1));
    while i < domains.len()
        invariant
            i <= domains.len(),
            all == csv_records_of(domain_views(domains@), exact_dates, now),
            all.len() == domains.len() + 1,
            csv_written(writer) == all.take(i + 1),
            forall|n: nat| #[trigger] csv_takes(writer, n) == (n == 6),
        decreases domains.len() - i,
    {
        let record = csv_record(&domains[i], exact_dates, now);
        proof {
            assert(all[i + 1] == csv_record_of(domains[i as int]@, exact_dates, now));
            assert(all.take(i + 2) =~= all.take(i + 1).push(all[i + 1]));
            assert(text_views(record@).len() == 6);
        }
        let taken = csv_write(&mut writer, &record);
        assert(taken);
        i += 1;
    }
    assert(all.take(i + 1) =~= all);
    csv_finish(writer)
}

/// Whether a `csv::Writer` takes a record of so many fields: whether
/// `write_record` returns `Ok` for it. A writer with default settings takes
/// any record first, and then the records that are as long as the first.
pub uninterp spec fn csv_takes(writer: CsvWriter, fields: nat) -> bool;

} // verus!
