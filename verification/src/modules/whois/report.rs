//! The fields of a whois answer that are shown first, and what is left of
//! the answer beside them.

use vstd::prelude::*;
use vstd::string::*;
use crate::modules::whois::{
    all_captures, captures, captures_all, field_of_line, first_captures, group_views, line_field,
    match_views,
};
use crate::order::{is_strictly_ascending, sorted_distinct};
use crate::text::{
    ascii_uppercase, join, join_texts, lines_of, text_lines, text_views, to_ascii_uppercase, trim,
    trimmed,
};
use crate::time::{
    human_span, humanize_span, naive_utc_instant, parse_naive_utc, parse_rfc3339, rfc3339_instant,
    Timestamp,
};

verus! {

/// How a value is shown.
#[derive(Clone, Copy, Debug, PartialEq, Eq, Structural)]
pub enum Look {
    /// The value is withheld.
    Redacted,
    /// The zone is signed.
    Signed,
    /// The zone is not signed.
    Unsigned,
    /// Nothing special.
    Plain,
}

/// One of the fields that are shown first.
#[derive(Debug)]
pub struct WhoisValue {
    pub label: String,
    pub value: String,
    pub shown: String,
    pub look: Look,
}

/// One name server.
#[derive(Debug)]
pub struct NameServer {
    pub name: String,
    pub redacted: bool,
}

/// One line of what is left of the answer.
#[derive(Debug)]
pub enum RestLine {
    Field { name: String, value: String },
    Plain(String),
}

/// What is shown of a whois answer.
#[derive(Debug)]
pub struct WhoisReport {
    pub values: Vec<WhoisValue>,
    pub name_servers: Vec<NameServer>,
    pub rest: Vec<RestLine>,
    pub redacted: Vec<String>,
}

/// The first group after the whole match that took part in it.
pub open spec fn first_group(groups: Seq<Option<Seq<char>>>, from: int) -> Option<Seq<char>>
    decreases groups.len() - from,
{
    if from < 1 || from >= groups.len() {
        None
    } else if groups[from] is Some {
        groups[from]
    } else {
        first_group(groups, from + 1)
    }
}

/// The value that a pattern finds in an answer: the first group of its
/// first match, without white space around it, and a dash where it finds
/// none.
pub open spec fn labelled_value(pattern: Seq<char>, raw: Seq<char>) -> Seq<char> {
    match first_captures(pattern, raw) {
        Some(groups) => match first_group(groups, 1) {
            Some(text) => trimmed(text),
            None => "-"@,
        },
        None => "-"@,
    }
}

/// Whether a label names a date.
pub open spec fn is_date_label(label: Seq<char>) -> bool {
    label == "Expiry Date"@ || label == "Updated Date"@ || label == "Creation Date"@
}

/// The instant that a value names: as RFC 3339, or else as day, month and
/// year with full stops.
pub open spec fn read_date(value: Seq<char>) -> Option<Timestamp> {
    match rfc3339_instant(value) {
        Some(at) => Some(at),
        None => naive_utc_instant(value, "%d.%m.%Y %H:%M:%S"@),
    }
}

/// The value as it is shown at `now`: a date with the span until it in
/// words behind it, anything else as it is.
pub open spec fn shown_value(label: Seq<char>, value: Seq<char>, now: Timestamp) -> Seq<char> {
    if is_date_label(label) && value.len() > 0 && value != "REDACTED"@ {
        match read_date(value) {
            Some(at) => match human_span(at, now) {
                Some(words) => value + " ("@ + words + ")"@,
                None => value,
            },
            None => value,
        }
    } else {
        value
    }
}

/// How a value is shown.
pub open spec fn look_of(label: Seq<char>, value: Seq<char>) -> Look {
    if value == "REDACTED"@ {
        Look::Redacted
    } else if label == "DNSSEC"@ {
        if ascii_uppercase(value) == "UNSIGNED"@ {
            Look::Unsigned
        } else {
            Look::Signed
        }
    } else {
        Look::Plain
    }
}

/// Whether a field is what a pattern finds in an answer under a label.
pub open spec fn is_whois_value(
    field: WhoisValue,
    label: Seq<char>,
    pattern: Seq<char>,
    raw: Seq<char>,
    now: Timestamp,
) -> bool {
    &&& field.label@ == label
    &&& field.value@ == labelled_value(pattern, raw)
    &&& field.shown@ == shown_value(label, field.value@, now)
    &&& field.look == look_of(label, field.value@)
}

/// The name servers of some matches: the first group of each match that
/// has one, without white space around it.
pub open spec fn name_servers_of(matches: Seq<Seq<Option<Seq<char>>>>) -> Seq<Seq<char>>
    decreases matches.len(),
{
    if matches.len() == 0 {
        Seq::empty()
    } else {
        let before = name_servers_of(matches.drop_last());
        let groups = matches.last();
        if groups.len() > 1 && groups[1] is Some {
            before.push(trimmed(groups[1]->0))
        } else {
            before
        }
    }
}

/// The six labels with their patterns, in the order in which they are
/// shown.
pub open spec fn label_pattern_texts() -> Seq<(Seq<char>, Seq<char>)> {
    seq![
        ("Registrar"@, "Registrar:\\s*(.+)"@),
        ("Registrar URL"@, "Registrar URL:\\s*(.+)"@),
        ("Expiry Date"@, "Registry Expiry Date:\\s*(.+)|Expiration date:\\s*(.+)"@),
        ("Updated Date"@, "Updated Date:\\s*(.+)|Modification date:\\s*(.+)"@),
        ("Creation Date"@, "Creation Date:\\s*(.+)|Registration date:\\s*(.+)"@),
        ("DNSSEC"@, "DNSSEC:\\s*(.+)|DNSSEC signed:\\s*(.+)"@),
    ]
}

/// The pattern of a line that names a name server.
pub open spec fn name_server_text() -> Seq<char> {
    "Name Server:\\s*(.+)|DNS:\\s*(.+)"@
}

/// The patterns of the lines that are shown first: those of the six
/// labels, then that of the name servers.
pub open spec fn first_pattern_texts() -> Seq<Seq<char>> {
    label_pattern_texts().map_values(|p: (Seq<char>, Seq<char>)| p.1).push(name_server_text())
}

/// The six labels with their patterns, in the order in which they are
/// shown.
pub fn label_patterns() -> (r: Vec<(&'static str, &'static str)>)
    ensures
        r@.map_values(|p: (&'static str, &'static str)| (p.0@, p.1@)) == label_pattern_texts(),
{
    let mut out: Vec<(&'static str, &'static str)> = Vec::new();
    out.push(("Registrar", "Registrar:\\s*(.+)"));
    out.push(("Registrar URL", "Registrar URL:\\s*(.+)"));
    out.push(("Expiry Date", "Registry Expiry Date:\\s*(.+)|Expiration date:\\s*(.+)"));
    out.push(("Updated Date", "Updated Date:\\s*(.+)|Modification date:\\s*(.+)"));
    out.push(("Creation Date", "Creation Date:\\s*(.+)|Registration date:\\s*(.+)"));
    out.push(("DNSSEC", "DNSSEC:\\s*(.+)|DNSSEC signed:\\s*(.+)"));
    assert(out@.map_values(|p: (&'static str, &'static str)| (p.0@, p.1@))
        =~= label_pattern_texts());
    out
}

/// The pattern of a line that names a name server.
pub fn name_server_pattern() -> (r: &'static str)
    ensures
        r@ == name_server_text(),
{
    "Name Server:\\s*(.+)|DNS:\\s*(.+)"
}

fn first_group_of(groups: &Vec<Option<String>>) -> (r: Option<&String>)
    ensures
        match r {
            Some(text) => first_group(group_views(groups@), 1) == Some(text@),
            None => first_group(group_views(groups@), 1) is None,
        },
{
    let ghost views = group_views(groups@);
    if groups.len() < 2 {
        return None;
    }
    let mut i: usize = 1;
    while i < groups.len()
        invariant
            1 <= i <= groups.len(),
            views == group_views(groups@),
            first_group(views, 1) == first_group(views, i as int),
        decreases groups.len() - i,
    {
        assert(views[i as int] == match groups[i as int] {
            Some(text) => Some(text@),
            None => None,
        });
        match &groups[i] {
            Some(text) => {
                return Some(text);
            },
            None => {},
        }
        i += 1;
    }
    None
}

/// The value that a pattern finds in an answer.
pub fn value_of(pattern: &str, raw: &str) -> (r: String)
    ensures
        r@ == labelled_value(pattern@, raw@),
{
    match captures(pattern, raw) {
        Some(groups) => match first_group_of(&groups) {
            Some(text) => trim(text.as_str()).to_owned(),
            None => "-".to_owned(),
        },
        None => "-".to_owned(),
    }
}

/// The value as it is shown at `now`.
pub fn shown_of(label: &str, value: &str, now: Timestamp) -> (r: String)
    ensures
        r@ == shown_value(label@, value@, now),
{
    let dated = label.eq("Expiry Date") || label.eq("Updated Date") || label.eq("Creation Date");
    if dated && value.unicode_len() > 0 && !value.eq("REDACTED") {
        let at = match parse_rfc3339(value) {
            Some(at) => Some(at),
            None => parse_naive_utc(value, "%d.%m.%Y %H:%M:%S"),
        };
        match at {
            Some(at) => match humanize_span(at, now) {
                Some(words) => {
                    let mut out = value.to_owned();
                    out.append(" (");
                    out.append(words.as_str());
                    out.append(")");
                    out
                },
                None => value.to_owned(),
            },
            None => value.to_owned(),
        }
    } else {
        value.to_owned()
    }
}

/// How a value is shown.
pub fn look(label: &str, value: &str) -> (r: Look)
    ensures
        r == look_of(label@, value@),
{
    if value.eq("REDACTED") {
        Look::Redacted
    } else if label.eq("DNSSEC") {
        if to_ascii_uppercase(value).as_str().eq("UNSIGNED") {
            Look::Unsigned
        } else {
            Look::Signed
        }
    } else {
        Look::Plain
    }
}

/// The field that a pattern finds in an answer under a label, as it is
/// shown at `now`.
pub fn whois_value(label: &str, pattern: &str, raw: &str, now: Timestamp) -> (r: WhoisValue)
    ensures
        is_whois_value(r, label@, pattern@, raw@, now),
{
    let value = value_of(pattern, raw);
    let shown = shown_of(label, value.as_str(), now);
    let how = look(label, value.as_str());
    WhoisValue { label: label.to_owned(), value, shown, look: how }
}

/// The name servers that an answer names, in order.
pub fn name_servers(raw: &str) -> (r: Vec<NameServer>)
    ensures
        r@.map_values(|n: NameServer| n.name@) == name_servers_of(
            all_captures(name_server_text(), raw@),
        ),
        forall|k: int| 0 <= k < r@.len() ==> (#[trigger] r@[k]).redacted == (r@[k].name@
            == "REDACTED"@),
{
    let matches = captures_all(name_server_pattern(), raw);
    let ghost views = match_views(matches@);
    let mut out: Vec<NameServer> = Vec::new();
    let mut i: usize = 0;
    assert(views.take(0) =~= Seq::<Seq<Option<Seq<char>>>>::empty());
    assert(out@.map_values(|n: NameServer| n.name@) =~= Seq::<Seq<char>>::empty());
    while i < matches.len()
        invariant
            i <= matches.len(),
            views == match_views(matches@),
            out@.map_values(|n: NameServer| n.name@) == name_servers_of(views.take(i as int)),
            forall|k: int| 0 <= k < out@.len() ==> (#[trigger] out@[k]).redacted == (out@[k].name@
                == "REDACTED"@),
        decreases matches.len() - i,
    {
        let ghost before = out@;
        proof {
            let upto = views.take(i + 1);
            assert(upto.drop_last() =~= views.take(i as int));
            assert(upto.last() == group_views(matches[i as int]@));
            let groups = upto.last();
            assert(name_servers_of(upto) == if groups.len() > 1 && groups[1] is Some {
                name_servers_of(upto.drop_last()).push(trimmed(groups[1]->0))
            } else {
                name_servers_of(upto.drop_last())
            });
        }
        if matches[i].len() > 1 {
            assert(group_views(matches[i as int]@)[1] == match matches[i as int][1] {
                Some(text) => Some(text@),
                None => None,
            });
            match &matches[i][1] {
                Some(text) => {
                    let name = trim(text.as_str()).to_owned();
                    let redacted = name.as_str().eq("REDACTED");
                    out.push(NameServer { name, redacted });
                    assert(out@.map_values(|n: NameServer| n.name@) =~= before.map_values(
                        |n: NameServer| n.name@,
                    ).push(trimmed(text@)));
                },
                None => {},
            }
        }
        i += 1;
    }
    assert(views.take(i as int) =~= views);
    out
}

/// Whether a line is one of those that are shown first: one of the given
/// patterns matches it.
pub open spec fn is_shown_first(patterns: Seq<Seq<char>>, line: Seq<char>) -> bool {
    exists|k: int| 0 <= k < patterns.len() && first_captures(#[trigger] patterns[k], line) is Some
}

/// What a line adds to the rest of an answer.
pub ghost enum RestPiece {
    /// Nothing: the line is empty or is shown first.
    Nothing,
    /// Nothing but the name of a field that is withheld.
    Withheld(Seq<char>),
    /// A field.
    Field(Seq<char>, Seq<char>),
    /// The line as it is.
    Plain(Seq<char>),
}

/// What a line adds to the rest of an answer.
pub open spec fn rest_piece(patterns: Seq<Seq<char>>, line: Seq<char>) -> RestPiece {
    if trimmed(line).len() == 0 || is_shown_first(patterns, line) {
        RestPiece::Nothing
    } else {
        match line_field(line) {
            Some(field) => if field.1 == "REDACTED"@ {
                RestPiece::Withheld(field.0)
            } else {
                RestPiece::Field(field.0, field.1)
            },
            None => RestPiece::Plain(line),
        }
    }
}

/// Whether one of the patterns matches the line.
pub fn shown_first(patterns: &Vec<&'static str>, line: &str) -> (r: bool)
    ensures
        r == is_shown_first(patterns@.map_values(|p: &'static str| p@), line@),
{
    let ghost views = patterns@.map_values(|p: &'static str| p@);
    let mut i: usize = 0;
    while i < patterns.len()
        invariant
            i <= patterns.len(),
            views == patterns@.map_values(|p: &'static str| p@),
            forall|k: int| 0 <= k < i ==> first_captures(#[trigger] views[k], line@) is None,
        decreases patterns.len() - i,
    {
        assert(views[i as int] == patterns[i as int]@);
        if captures(patterns[i], line).is_some() {
            return true;
        }
        i += 1;
    }
    false
}

/// The view of a line of the rest.
pub open spec fn rest_line_view(line: RestLine) -> RestPiece {
    match line {
        RestLine::Field { name, value } => RestPiece::Field(name@, value@),
        RestLine::Plain(text) => RestPiece::Plain(text@),
    }
}

/// The lines of the rest of an answer, in order.
pub open spec fn rest_lines(patterns: Seq<Seq<char>>, lines: Seq<Seq<char>>) -> Seq<RestPiece>
    decreases lines.len(),
{
    if lines.len() == 0 {
        Seq::empty()
    } else {
        let before = rest_lines(patterns, lines.drop_last());
        match rest_piece(patterns, lines.last()) {
            RestPiece::Field(name, value) => before.push(RestPiece::Field(name, value)),
            RestPiece::Plain(text) => before.push(RestPiece::Plain(text)),
            _ => before,
        }
    }
}

/// The names of the withheld fields of the rest of an answer, in order.
pub open spec fn rest_withheld(patterns: Seq<Seq<char>>, lines: Seq<Seq<char>>) -> Seq<Seq<char>>
    decreases lines.len(),
{
    if lines.len() == 0 {
        Seq::empty()
    } else {
        let before = rest_withheld(patterns, lines.drop_last());
        match rest_piece(patterns, lines.last()) {
            RestPiece::Withheld(name) => before.push(name),
            _ => before,
        }
    }
}

/// What is left of an answer beside the lines that are shown first: the
/// other lines in order, and the names of the fields among them that are
/// withheld.
pub fn rest_of(patterns: &Vec<&'static str>, raw: &str) -> (r: (Vec<RestLine>, Vec<String>))
    ensures
        r.0@.map_values(|l: RestLine| rest_line_view(l)) == rest_lines(
            patterns@.map_values(|p: &'static str| p@),
            text_lines(raw@),
        ),
        text_views(r.1@) == rest_withheld(
            patterns@.map_values(|p: &'static str| p@),
            text_lines(raw@),
        ),
{
    let lines = lines_of(raw);
    let ghost views = text_views(lines@);
    let ghost pats = patterns@.map_values(|p: &'static str| p@);
    let mut rest: Vec<RestLine> = Vec::new();
    let mut withheld: Vec<String> = Vec::new();
    let mut i: usize = 0;
    assert(views.take(0) =~= Seq::<Seq<char>>::empty());
    assert(rest@.map_values(|l: RestLine| rest_line_view(l)) =~= Seq::<RestPiece>::empty());
    assert(text_views(withheld@) =~= Seq::<Seq<char>>::empty());
    while i < lines.len()
        invariant
            i <= lines.len(),
            views == text_views(lines@),
            pats == patterns@.map_values(|p: &'static str| p@),
            rest@.map_values(|l: RestLine| rest_line_view(l)) == rest_lines(
                pats,
                views.take(i as int),
            ),
            text_views(withheld@) == rest_withheld(pats, views.take(i as int)),
        decreases lines.len() - i,
    {
        let ghost rest_before = rest@;
        let ghost withheld_before = withheld@;
        proof {
            let upto = views.take(i + 1);
            assert(upto.drop_last() =~= views.take(i as int));
            assert(upto.last() == lines[i as int]@);
            assert(rest_lines(pats, upto) == match rest_piece(pats, upto.last()) {
                RestPiece::Field(name, value) => rest_lines(pats, upto.drop_last()).push(
                    RestPiece::Field(name, value),
                ),
                RestPiece::Plain(text) => rest_lines(pats, upto.drop_last()).push(
                    RestPiece::Plain(text),
                ),
                _ => rest_lines(pats, upto.drop_last()),
            });
            assert(rest_withheld(pats, upto) == match rest_piece(pats, upto.last()) {
                RestPiece::Withheld(name) => rest_withheld(pats, upto.drop_last()).push(name),
                _ => rest_withheld(pats, upto.drop_last()),
            });
        }
        let line = lines[i].as_str();
        if trim(line).unicode_len() > 0 && !shown_first(patterns, line) {
            match field_of_line(line) {
                Some(field) => {
                    if field.1.as_str().eq("REDACTED") {
                        withheld.push(field.0);
                        assert(text_views(withheld@) =~= text_views(withheld_before).push(
                            (line_field(line@)->0).0,
                        ));
                    } else {
                        rest.push(RestLine::Field { name: field.0, value: field.1 });
                        assert(rest@.map_values(|l: RestLine| rest_line_view(l))
                            =~= rest_before.map_values(|l: RestLine| rest_line_view(l)).push(
                            RestPiece::Field((line_field(line@)->0).0, (line_field(line@)->0).1),
                        ));
                    }
                },
                None => {
                    rest.push(RestLine::Plain(lines[i].clone()));
                    assert(rest@.map_values(|l: RestLine| rest_line_view(l))
                        =~= rest_before.map_values(|l: RestLine| rest_line_view(l)).push(
                        RestPiece::Plain(line@),
                    ));
                },
            }
        }
        i += 1;
    }
    assert(views.take(i as int) =~= views);
    (rest, withheld)
}

/// The names of what is withheld, each once, in ascending order.
pub fn withheld_names(names: &Vec<String>) -> (r: Vec<String>)
    ensures
        is_strictly_ascending(text_views(r@)),
        forall|x: Seq<char>| text_views(r@).contains(x) <==> text_views(names@).contains(x),
{
    sorted_distinct(names)
}

/// The line that names what is withheld, and nothing where nothing is.
pub fn redacted_summary(names: &Vec<String>) -> (r: String)
    ensures
        r@ == if names@.len() > 0 {
            "\nREDACTED: "@ + join_texts(text_views(names@), ", "@)
        } else {
            Seq::<char>::empty()
        },
{
    if names.len() > 0 {
        let listed = join(names, ", ");
        "\nREDACTED: ".to_owned().concat(listed.as_str())
    } else {
        String::new()
    }
}

/// Whether a value is withheld.
pub open spec fn is_withheld() -> spec_fn(WhoisValue) -> bool {
    |v: WhoisValue| v.look == Look::Redacted
}

/// The label of a value.
pub open spec fn label_of() -> spec_fn(WhoisValue) -> Seq<char> {
    |v: WhoisValue| v.label@
}

/// Whether a name server is withheld.
pub open spec fn is_withheld_server() -> spec_fn(NameServer) -> bool {
    |n: NameServer| n.redacted
}

/// What a withheld name server is named by.
pub open spec fn server_label() -> spec_fn(NameServer) -> Seq<char> {
    |n: NameServer| "Name Server"@
}

/// The names of all that is withheld in a report, with repetition: the
/// labels of the withheld values, `Name Server` for each withheld name
/// server, and the withheld fields of the rest.
pub open spec fn withheld_in(
    values: Seq<WhoisValue>,
    servers: Seq<NameServer>,
    rest: Seq<Seq<char>>,
) -> Seq<Seq<char>> {
    values.filter(is_withheld()).map_values(label_of()) + servers.filter(
        is_withheld_server(),
    ).map_values(server_label()) + rest
}

/// Whether a report is what is shown of an answer at `now`.
pub open spec fn is_whois_report(report: WhoisReport, raw: Seq<char>, now: Timestamp) -> bool {
    &&& report.values@.len() == label_pattern_texts().len()
    &&& forall|k: int|
        0 <= k < report.values@.len() ==> is_whois_value(
            #[trigger] report.values@[k],
            label_pattern_texts()[k].0,
            label_pattern_texts()[k].1,
            raw,
            now,
        )
    &&& report.name_servers@.map_values(|n: NameServer| n.name@) == name_servers_of(
        all_captures(name_server_text(), raw),
    )
    &&& forall|k: int|
        0 <= k < report.name_servers@.len() ==> (#[trigger] report.name_servers@[k]).redacted
            == (report.name_servers@[k].name@ == "REDACTED"@)
    &&& report.rest@.map_values(|l: RestLine| rest_line_view(l)) == rest_lines(
        first_pattern_texts(),
        text_lines(raw),
    )
    &&& is_strictly_ascending(text_views(report.redacted@))
    &&& forall|x: Seq<char>|
        text_views(report.redacted@).contains(x) <==> withheld_in(
            report.values@,
            report.name_servers@,
            rest_withheld(first_pattern_texts(), text_lines(raw)),
        ).contains(x)
}

/// What is shown of an answer at `now`: the six fields that are shown
/// first, the name servers, the other lines, and the names of all that is
/// withheld, each once, in ascending order.
pub fn whois_report(raw: &str, now: Timestamp) -> (r: WhoisReport)
    ensures
        is_whois_report(r, raw@, now),
{
    let labels = label_patterns();
    let ghost texts = label_pattern_texts();
    let mut values: Vec<WhoisValue> = Vec::new();
    let mut patterns: Vec<&'static str> = Vec::new();
    let mut names: Vec<String> = Vec::new();
    let mut i: usize = 0;
    proof {
        crate::seqs::lemma_filter_none(values@, is_withheld());
        assert(values@.take(0) =~= values@);
        assert(text_views(names@) =~= values@.filter(is_withheld()).map_values(label_of()));
    }
    while i < labels.len()
        invariant
            i <= labels.len(),
            texts == label_pattern_texts(),
            labels@.map_values(|p: (&'static str, &'static str)| (p.0@, p.1@)) == texts,
            values@.len() == i,
            patterns@.len() == i,
            forall|k: int| 0 <= k < i ==> (#[trigger] patterns@[k])@ == texts[k].1,
            forall|k: int|
                0 <= k < i ==> is_whois_value(
                    #[trigger] values@[k],
                    texts[k].0,
                    texts[k].1,
                    raw@,
                    now,
                ),
            text_views(names@) == values@.filter(is_withheld()).map_values(label_of()),
        decreases labels.len() - i,
    {
        let ghost values_before = values@;
        let ghost names_before = names@;
        assert(texts[i as int] == (labels[i as int].0@, labels[i as int].1@));
        let value = whois_value(labels[i].0, labels[i].1, raw, now);
        patterns.push(labels[i].1);
        if matches!(value.look, Look::Redacted) {
            names.push(value.label.clone());
        }
        values.push(value);
        proof {
            let last = values@[i as int];
            values_before.lemma_filter_push(last, is_withheld());
            assert(values@ =~= values_before.push(last));
            if is_withheld()(last) {
                crate::seqs::lemma_map_push(
                    values_before.filter(is_withheld()),
                    last,
                    label_of(),
                );
                assert(text_views(names@) =~= text_views(names_before).push(last.label@));
            }
        }
        i += 1;
    }
    let servers = name_servers(raw);
    patterns.push(name_server_pattern());
    proof {
        assert(patterns@.map_values(|p: &'static str| p@) =~= first_pattern_texts());
    }
    let ghost first = text_views(names@);
    let mut j: usize = 0;
    proof {
        crate::seqs::lemma_filter_none(servers@, is_withheld_server());
        assert(text_views(names@) =~= first + servers@.take(0).filter(
            is_withheld_server(),
        ).map_values(server_label()));
    }
    while j < servers.len()
        invariant
            j <= servers.len(),
            first == values@.filter(is_withheld()).map_values(label_of()),
            text_views(names@) == first + servers@.take(j as int).filter(
                is_withheld_server(),
            ).map_values(server_label()),
        decreases servers.len() - j,
    {
        let ghost names_before = names@;
        proof {
            crate::seqs::lemma_filter_step(servers@, j as int, is_withheld_server());
        }
        if servers[j].redacted {
            names.push("Name Server".to_owned());
            proof {
                crate::seqs::lemma_map_push(
                    servers@.take(j as int).filter(is_withheld_server()),
                    servers@[j as int],
                    server_label(),
                );
                assert(text_views(names@) =~= text_views(names_before).push("Name Server"@));
            }
        }
        j += 1;
    }
    assert(servers@.take(j as int) =~= servers@);
    let (rest, withheld) = rest_of(&patterns, raw);
    let ghost second = text_views(names@);
    let mut k: usize = 0;
    while k < withheld.len()
        invariant
            k <= withheld.len(),
            text_views(names@) == second + text_views(withheld@).take(k as int),
        decreases withheld.len() - k,
    {
        let ghost names_before = names@;
        names.push(withheld[k].clone());
        proof {
            assert(text_views(withheld@).take(k + 1) =~= text_views(withheld@).take(
                k as int,
            ).push(withheld[k as int]@));
            assert(text_views(names@) =~= text_views(names_before).push(withheld[k as int]@));
        }
        k += 1;
    }
    assert(text_views(withheld@).take(k as int) =~= text_views(withheld@));
    let redacted = withheld_names(&names);
    WhoisReport { values, name_servers: servers, rest, redacted }
}

} // verus!
