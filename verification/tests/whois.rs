use dmn::modules::whois::report::{
    label_patterns, look, name_servers, redacted_summary, rest_of, shown_of, value_of,
    whois_report, withheld_names, Look, RestLine,
};
use dmn::modules::whois::{
    cut_at_last_update, field_of_line, json_raw, sluggify_key, WhoisResult,
};
use dmn::order::sorted_distinct;
use dmn::text::{
    join, lines_of, reads_true, split_at_first_stop, to_ascii_uppercase, trimmed_of_newlines,
    without_repetition,
};
use dmn::time::Timestamp;

const NOW: Timestamp = Timestamp { secs: 1_767_225_600, nanos: 0 };

const ANSWER: &str = "Domain Name: EXAMPLE.COM\nRegistrar: Example Registrar, Inc.  \nRegistrar URL: http://www.example.com\nRegistry Expiry Date: 2026-04-16T23:59:59Z\nUpdated Date: REDACTED\nDNSSEC: unsigned\nName Server: NS1.EXAMPLE.COM\nName Server: REDACTED\nRegistrant Email: REDACTED\nAdmin Name: REDACTED\nRegistrant Email: REDACTED\n\n   \nsome free text\r\n";

fn texts(items: &[&str]) -> Vec<String> {
    items.iter().map(|s| s.to_string()).collect()
}

#[test]
fn answer_is_cut_at_the_last_update() {
    assert_eq!(
        cut_at_last_update("a: b\n>>> Last update of WHOIS database: 2025 <<<\nterms"),
        "a: b\n"
    );
    assert_eq!(cut_at_last_update("a: b\n"), "a: b\n");
    assert_eq!(cut_at_last_update(""), "");
    assert_eq!(
        cut_at_last_update(">>> Last update of WHOIS database:x>>> Last update of WHOIS database:"),
        ""
    );
}

#[test]
fn lines_are_read_as_fields() {
    assert_eq!(
        field_of_line("Domain Name:   example.com  "),
        Some(("Domain Name".to_string(), "example.com".to_string()))
    );
    assert_eq!(
        field_of_line("Name Server: a: b"),
        Some(("Name Server".to_string(), "a: b".to_string()))
    );
    assert_eq!(field_of_line("no field here"), None);
    assert_eq!(field_of_line("Key:"), None);
    assert_eq!(field_of_line("% comment: x"), None);
    assert_eq!(field_of_line(""), None);
    assert_eq!(sluggify_key("Registry Expiry-Date"), "registry_expiry_date");
    assert_eq!(sluggify_key("DNSSEC"), "dnssec");
    assert_eq!(sluggify_key(""), "");
}

#[test]
fn answer_is_written_as_json() {
    assert_eq!(
        json_raw("Domain Name: example.com\nRegistrar: X\n   \nno field here\nRegistrar: Y\n"),
        "{\"data\":{\"domain_name\":\"example.com\",\"registrar\":\"Y\"},\"extra_lines\":[\"   \",\"no field here\"]}"
    );
    assert_eq!(json_raw(""), "{\"data\":{},\"extra_lines\":[]}");
}

#[test]
fn result_is_printed_without_white_space_around_it() {
    let result = WhoisResult { domain: "a.com".to_string(), raw: "  \n table \n\n".to_string() };
    assert_eq!(result.text(), "table\n");
}

#[test]
fn values_are_found_by_their_patterns() {
    let patterns = label_patterns();
    assert_eq!(patterns.len(), 6);
    assert_eq!(patterns[0].0, "Registrar");
    assert_eq!(patterns[5].0, "DNSSEC");
    assert_eq!(value_of(patterns[0].1, ANSWER), "Example Registrar, Inc.");
    assert_eq!(value_of(patterns[2].1, ANSWER), "2026-04-16T23:59:59Z");
    assert_eq!(value_of(patterns[2].1, "Expiration date: 02.05.2023 14:51:07\n"), "02.05.2023 14:51:07");
    assert_eq!(value_of(patterns[4].1, ANSWER), "-");
    assert_eq!(value_of("(", ANSWER), "-");
    assert_eq!(look("DNSSEC", "unsigned"), Look::Unsigned);
    assert_eq!(look("DNSSEC", "UnSigned"), Look::Unsigned);
    assert_eq!(look("DNSSEC", "signedDelegation"), Look::Signed);
    assert_eq!(look("DNSSEC", "REDACTED"), Look::Redacted);
    assert_eq!(look("Registrar", "unsigned"), Look::Plain);
}

#[test]
fn dates_are_shown_with_the_span_until_them() {
    assert_eq!(
        shown_of("Expiry Date", "2026-01-03T00:00:00Z", NOW),
        "2026-01-03T00:00:00Z (in 2 days)"
    );
    assert_eq!(
        shown_of("Updated Date", "02.05.2023 14:51:07", Timestamp { secs: 1_683_039_067 + 86_400, nanos: 0 }),
        "02.05.2023 14:51:07 (a day ago)"
    );
    assert_eq!(shown_of("Creation Date", "yesterday", NOW), "yesterday");
    assert_eq!(shown_of("Creation Date", "REDACTED", NOW), "REDACTED");
    assert_eq!(shown_of("Creation Date", "", NOW), "");
    assert_eq!(shown_of("Registrar", "2026-01-03T00:00:00Z", NOW), "2026-01-03T00:00:00Z");
}

#[test]
fn report_holds_what_is_shown_of_an_answer() {
    let report = whois_report(ANSWER, NOW);
    let labels: Vec<&str> = report.values.iter().map(|v| v.label.as_str()).collect();
    assert_eq!(
        labels,
        vec!["Registrar", "Registrar URL", "Expiry Date", "Updated Date", "Creation Date", "DNSSEC"]
    );
    let values: Vec<&str> = report.values.iter().map(|v| v.value.as_str()).collect();
    assert_eq!(
        values,
        vec![
            "Example Registrar, Inc.",
            "http://www.example.com",
            "2026-04-16T23:59:59Z",
            "REDACTED",
            "-",
            "unsigned"
        ]
    );
    let looks: Vec<Look> = report.values.iter().map(|v| v.look).collect();
    assert_eq!(
        looks,
        vec![Look::Plain, Look::Plain, Look::Plain, Look::Redacted, Look::Plain, Look::Unsigned]
    );
    assert_eq!(report.values[2].shown, "2026-04-16T23:59:59Z (in 3 months)");
    assert_eq!(report.values[3].shown, "REDACTED");
    let servers: Vec<(&str, bool)> =
        report.name_servers.iter().map(|n| (n.name.as_str(), n.redacted)).collect();
    assert_eq!(servers, vec![("NS1.EXAMPLE.COM", false), ("REDACTED", true)]);
    assert_eq!(report.rest.len(), 2);
    match &report.rest[0] {
        RestLine::Field { name, value } => {
            assert_eq!(name, "Domain Name");
            assert_eq!(value, "EXAMPLE.COM");
        }
        other => panic!("unexpected: {:?}", other),
    }
    match &report.rest[1] {
        RestLine::Plain(line) => assert_eq!(line, "some free text"),
        other => panic!("unexpected: {:?}", other),
    }
    assert_eq!(
        report.redacted,
        vec!["Admin Name", "Name Server", "Registrant Email", "Updated Date"]
    );
    assert_eq!(
        redacted_summary(&report.redacted),
        "\nREDACTED: Admin Name, Name Server, Registrant Email, Updated Date"
    );
    assert_eq!(redacted_summary(&vec![]), "");
}

#[test]
fn report_of_an_empty_answer_is_all_dashes() {
    let report = whois_report("", NOW);
    assert!(report.values.iter().all(|v| v.value == "-" && v.shown == "-"));
    assert_eq!(report.values[5].look, Look::Signed);
    assert!(report.name_servers.is_empty());
    assert!(report.rest.is_empty());
    assert!(report.redacted.is_empty());
    assert!(name_servers("DNS: a.example\nDNS: b.example").iter().all(|n| !n.redacted));
    assert_eq!(name_servers("Name Server: a\nDNS: b").len(), 1);
    let (rest, withheld) = rest_of(&vec!["^x"], "x: 1\ny: REDACTED\nz: 2");
    assert_eq!(rest.len(), 1);
    assert_eq!(withheld, vec!["y"]);
}

#[test]
fn withheld_names_are_sorted_and_distinct() {
    assert_eq!(
        withheld_names(&texts(&["b", "a", "b", "B", "ab", "a", ""])),
        vec!["", "B", "a", "ab", "b"]
    );
    assert!(withheld_names(&vec![]).is_empty());
    assert_eq!(sorted_distinct(&texts(&["tld", "status", "a", "tld", "Z", "é"])), vec![
        "Z", "a", "status", "tld", "é"
    ]);
    assert_eq!(without_repetition(&texts(&["b", "a", "b", "a", "c"])), vec!["b", "a", "c"]);
}

#[test]
fn texts_are_trimmed_joined_and_split() {
    assert_eq!(trimmed_of_newlines("\n\na\n\nb\n"), "a\n\nb");
    assert_eq!(trimmed_of_newlines("\n\n\n"), "");
    assert_eq!(trimmed_of_newlines(""), "");
    assert_eq!(trimmed_of_newlines(" \n"), " ");
    assert_eq!(trimmed_of_newlines("\r\nx"), "\r\nx");
    assert_eq!(join(&texts(&["a", "b", "c"]), ", "), "a, b, c");
    assert_eq!(join(&texts(&["a"]), ", "), "a");
    assert_eq!(join(&texts(&["", ""]), "-"), "-");
    assert_eq!(join(&vec![], ", "), "");
    assert_eq!(split_at_first_stop("a.b.c"), ("a".to_string(), "b.c".to_string()));
    assert_eq!(split_at_first_stop("abc"), ("abc".to_string(), "".to_string()));
    assert_eq!(split_at_first_stop(".com"), ("".to_string(), "com".to_string()));
    assert_eq!(split_at_first_stop("a."), ("a".to_string(), "".to_string()));
    assert_eq!(split_at_first_stop(""), ("".to_string(), "".to_string()));
    assert_eq!(to_ascii_uppercase("abc-xyz é 9"), "ABC-XYZ é 9");
    assert!(reads_true("tRuE"));
    assert!(!reads_true("truE!"));
}

#[test]
fn lines_are_told_as_std_tells_them() {
    assert_eq!(lines_of("foo\r\nbar\n\nbaz\r"), vec!["foo", "bar", "", "baz\r"]);
    assert_eq!(lines_of("a\n"), vec!["a"]);
    assert_eq!(lines_of("a\n\n"), vec!["a", ""]);
    assert!(lines_of("").is_empty());
    for text in [
        "",
        "\n",
        "\r",
        "\r\n",
        "\n\r",
        "\r\r\n",
        "\r\r",
        "a",
        "a\r",
        "a\rb",
        "a\r\rb\r\n\r",
        "a\nb",
        "a\r\nb\r\n",
        "\n\n\n",
        " x \r \n\ty\r\r\n\r\nz",
        "Domain Name: é\r\nRegistrar: X",
    ] {
        let expected: Vec<String> = text.lines().map(str::to_string).collect();
        assert_eq!(lines_of(text), expected, "for {:?}", text);
    }
}
