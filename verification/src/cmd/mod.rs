//! The commands of the command line.

pub mod listing;
pub mod porkbun;

use vstd::prelude::*;
use vstd::string::*;
use crate::cmd::porkbun::PorkbunCommands;
use crate::json::{text_under, Json, JsonView};
use crate::models::domain::{Domain, DomainView};
use crate::text::{ascii_uppercase, to_ascii_uppercase};
use crate::time::{format_instant, formatted_instant, human_span, humanize_span, Timestamp};

verus! {

#[derive(Debug)]
pub struct Cli {
    pub command: Commands,
}

#[allow(inconsistent_fields)]
#[derive(Debug)]
pub enum Commands {
    /// Start the web server
    Server,
    /// List all domains
    Ls { exact_dates: bool, output: String },
    /// Porkbun related commands
    Porkbun { subcommand: PorkbunCommands },
    /// Cloudflare related commands
    Cloudflare { subcommand: CloudflareCommands },
    /// fzf extension
    Fzf,
    /// Whois related commands
    Whois { domain: String, json: bool },
}

#[derive(Clone, Copy, Debug, PartialEq, Eq, Structural)]
pub enum CloudflareCommands {
    /// Index Cloudflare domains
    Index,
}

/// The form in which the domains are listed.
#[derive(Clone, Copy, Debug, PartialEq, Eq, Structural)]
pub enum OutputFormat {
    Json,
    Csv,
    Table,
}

/// The form that a name stands for.
pub open spec fn output_format_of(name: Seq<char>) -> Option<OutputFormat> {
    if name == "json"@ {
        Some(OutputFormat::Json)
    } else if name == "csv"@ {
        Some(OutputFormat::Csv)
    } else if name == "table"@ {
        Some(OutputFormat::Table)
    } else {
        None
    }
}

/// The form that a name stands for: `json`, `csv` or `table`.
pub fn output_format(name: &str) -> (r: Option<OutputFormat>)
    ensures
        r == output_format_of(name@),
{
    if name.eq("json") {
        Some(OutputFormat::Json)
    } else if name.eq("csv") {
        Some(OutputFormat::Csv)
    } else if name.eq("table") {
        Some(OutputFormat::Table)
    } else {
        None
    }
}

/// What becomes of the notifications of a reconciliation.
#[derive(Clone, Copy, Debug, PartialEq, Eq, Structural)]
pub enum Delivery {
    /// They are handed to the transport.
    Send,
    /// There are none, so nothing is sent.
    NothingToSend,
    /// No transport is configured, so nothing is sent.
    NoTransport,
}

/// What becomes of `count` notifications: they are sent where a transport is
/// configured and there is at least one.
pub fn delivery(transport_configured: bool, count: usize) -> (r: Delivery)
    ensures
        r == if !transport_configured {
            Delivery::NoTransport
        } else if count > 0 {
            Delivery::Send
        } else {
            Delivery::NothingToSend
        },
{
    if !transport_configured {
        Delivery::NoTransport
    } else if count > 0 {
        Delivery::Send
    } else {
        Delivery::NothingToSend
    }
}

/// The status of a domain as its metadata tells it: the text under
/// `status`, else the text under `last_known_status`.
pub open spec fn status_text(metadata: Option<JsonView>) -> Option<Seq<char>> {
    match metadata {
        Some(value) => match text_under(value, "status"@) {
            Some(text) => Some(text),
            None => text_under(value, "last_known_status"@),
        },
        None => None,
    }
}

/// The text under a key of a JSON value.
pub fn text_at<'a>(value: &'a Json, key: &str) -> (r: Option<&'a String>)
    ensures
        match r {
            Some(text) => text_under(value@, key@) == Some(text@),
            None => text_under(value@, key@) is None,
        },
{
    match value {
        Json::Object(entries) => match entries.get(key) {
            Some(Json::String(text)) => Some(text),
            _ => None,
        },
        _ => None,
    }
}

/// The status of a domain as its metadata tells it.
pub fn status_of(metadata: &Option<Json>) -> (r: Option<String>)
    ensures
        match r {
            Some(text) => status_text(
                match *metadata {
                    Some(m) => Some(m@),
                    None => None,
                },
            ) == Some(text@),
            None => status_text(
                match *metadata {
                    Some(m) => Some(m@),
                    None => None,
                },
            ) is None,
        },
{
    match metadata {
        Some(value) => match text_at(value, "status") {
            Some(text) => Some(text.clone()),
            None => match text_at(value, "last_known_status") {
                Some(text) => Some(text.clone()),
                None => None,
            },
        },
        None => None,
    }
}

/// The colour of a cell of the table.
#[derive(Clone, Copy, Debug, PartialEq, Eq, Structural)]
pub enum CellColor {
    Green,
    Red,
    Yellow,
    DarkGrey,
}

/// The cell for a status: an active domain in green, one at auction in red,
/// any other status in capitals in yellow, and a dash where none is known.
pub open spec fn status_cell_of(status: Option<Seq<char>>) -> (Seq<char>, CellColor) {
    match status {
        Some(text) => {
            let upper = ascii_uppercase(text);
            if upper == "ACTIVE"@ || upper == "REGISTRATIONACTIVE"@ {
                ("ACTIVE"@, CellColor::Green)
            } else if upper == "AUCTION"@ {
                (text, CellColor::Red)
            } else {
                (upper, CellColor::Yellow)
            }
        },
        None => ("-"@, CellColor::DarkGrey),
    }
}

/// The cell for a status.
pub fn status_cell(status: &Option<String>) -> (r: (String, CellColor))
    ensures
        r.0@ == status_cell_of(
            match *status {
                Some(s) => Some(s@),
                None => None,
            },
        ).0,
        r.1 == status_cell_of(
            match *status {
                Some(s) => Some(s@),
                None => None,
            },
        ).1,
{
    match status {
        Some(text) => {
            let upper = to_ascii_uppercase(text.as_str());
            if upper.as_str().eq("ACTIVE") || upper.as_str().eq("REGISTRATIONACTIVE") {
                ("ACTIVE".to_owned(), CellColor::Green)
            } else if upper.as_str().eq("AUCTION") {
                (text.clone(), CellColor::Red)
            } else {
                (upper, CellColor::Yellow)
            }
        },
        None => ("-".to_owned(), CellColor::DarkGrey),
    }
}

/// The cell for a date, seen at `now`: the date and time where exact dates
/// are asked for, else the span until it in words; `missing` where the
/// date is unknown or cannot be written.
pub open spec fn date_cell_of(
    at: Option<Timestamp>,
    exact_dates: bool,
    now: Timestamp,
    missing: Seq<char>,
) -> Seq<char> {
    match at {
        Some(t) => {
            let written = if exact_dates {
                formatted_instant(t.secs, t.nanos, "%Y-%m-%d %H:%M:%S"@)
            } else {
                human_span(t, now)
            };
            match written {
                Some(text) => text,
                None => missing,
            }
        },
        None => missing,
    }
}

/// The cell for a date, seen at `now`.
pub fn date_cell(at: Option<Timestamp>, exact_dates: bool, now: Timestamp, missing: &str) -> (r:
    String)
    ensures
        r@ == date_cell_of(at, exact_dates, now, missing@),
{
    match at {
        Some(t) => {
            let written = if exact_dates {
                format_instant(t, "%Y-%m-%d %H:%M:%S")
            } else {
                humanize_span(t, now)
            };
            match written {
                Some(text) => text,
                None => missing.to_owned(),
            }
        },
        None => missing.to_owned(),
    }
}

/// The cell for the auto-renew flag: `Yes`, `No`, or `missing` where it is
/// unknown.
pub fn auto_renew_cell(flag: Option<bool>, missing: &str) -> (r: String)
    ensures
        r@ == match flag {
            Some(true) => "Yes"@,
            Some(false) => "No"@,
            None => missing@,
        },
{
    match flag {
        Some(true) => "Yes".to_owned(),
        Some(false) => "No".to_owned(),
        None => missing.to_owned(),
    }
}

/// The six cells of a domain in the CSV listing, in the order of the
/// header: name, provider, status, expiry, registered, auto renew. What is
/// unknown is left empty.
pub open spec fn csv_record_of(d: DomainView, exact_dates: bool, now: Timestamp) -> Seq<
    Seq<char>,
> {
    seq![
        d.name,
        d.provider,
        match status_text(d.metadata) {
            Some(text) => text,
            None => ""@,
        },
        date_cell_of(d.ext_expiry_at, exact_dates, now, ""@),
        date_cell_of(d.ext_registered_at, exact_dates, now, ""@),
        match d.ext_auto_renew {
            Some(true) => "Yes"@,
            Some(false) => "No"@,
            None => ""@,
        },
    ]
}

/// The header of the listing.
pub fn ls_header() -> (r: Vec<String>)
    ensures
        crate::text::text_views(r@) == seq![
            "Name"@,
            "Provider"@,
            "Status"@,
            "Expiry"@,
            "Registered"@,
            "Auto Renew"@,
        ],
{
    let mut out: Vec<String> = Vec::new();
    out.push("Name".to_owned());
    out.push("Provider".to_owned());
    out.push("Status".to_owned());
    out.push("Expiry".to_owned());
    out.push("Registered".to_owned());
    out.push("Auto Renew".to_owned());
    assert(crate::text::text_views(out@) =~= seq![
        "Name"@,
        "Provider"@,
        "Status"@,
        "Expiry"@,
        "Registered"@,
        "Auto Renew"@,
    ]);
    out
}

/// The six cells of a domain in the CSV listing.
pub fn csv_record(domain: &Domain, exact_dates: bool, now: Timestamp) -> (r: Vec<String>)
    ensures
        crate::text::text_views(r@) == csv_record_of(domain@, exact_dates, now),
{
    let status = match status_of(&domain.metadata) {
        Some(text) => text,
        None => "".to_owned(),
    };
    let mut out: Vec<String> = Vec::new();
    out.push(domain.name.clone());
    out.push(domain.provider.clone());
    out.push(status);
    out.push(date_cell(domain.ext_expiry_at, exact_dates, now, ""));
    out.push(date_cell(domain.ext_registered_at, exact_dates, now, ""));
    out.push(auto_renew_cell(domain.ext_auto_renew, ""));
    assert(crate::text::text_views(out@) =~= csv_record_of(domain@, exact_dates, now));
    out
}

/// One row of the table of domains. The provider is yet to be coloured.
#[derive(Debug)]
pub struct TableRow {
    pub name: String,
    pub provider: String,
    pub status: String,
    pub status_color: CellColor,
    pub expiry: String,
    pub registered: String,
    pub auto_renew: String,
}

/// The row of a domain in the table. What is unknown is a dash.
pub fn table_row(domain: &Domain, exact_dates: bool, now: Timestamp) -> (r: TableRow)
    ensures
        r.name@ == domain@.name,
        r.provider@ == domain@.provider,
        r.status@ == status_cell_of(status_text(domain@.metadata)).0,
        r.status_color == status_cell_of(status_text(domain@.metadata)).1,
        r.expiry@ == date_cell_of(domain@.ext_expiry_at, exact_dates, now, "-"@),
        r.registered@ == date_cell_of(domain@.ext_registered_at, exact_dates, now, "-"@),
        r.auto_renew@ == match domain@.ext_auto_renew {
            Some(true) => "Yes"@,
            Some(false) => "No"@,
            None => "-"@,
        },
{
    let status = status_of(&domain.metadata);
    let cell = status_cell(&status);
    TableRow {
        name: domain.name.clone(),
        provider: domain.provider.clone(),
        status: cell.0,
        status_color: cell.1,
        expiry: date_cell(domain.ext_expiry_at, exact_dates, now, "-"),
        registered: date_cell(domain.ext_registered_at, exact_dates, now, "-"),
        auto_renew: auto_renew_cell(domain.ext_auto_renew, "-"),
    }
}

} // verus!
