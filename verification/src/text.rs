//! Text helpers shared by the rest of the crate.

use vstd::prelude::*;
use vstd::string::*;

verus! {

/// `str`'s `==`: two string slices are equal exactly when they hold the same
/// characters.
pub assume_specification[ <str as PartialEq>::eq ](a: &str, b: &str) -> (r: bool)
    ensures
        r == (a@ == b@),
;

/// `String::push` appends one character.
pub assume_specification[ std::string::String::push ](s: &mut std::string::String, c: char)
    ensures
        final(s)@ == old(s)@.push(c),
;

/// `s` without the line feeds at its start.
pub open spec fn trim_start_newlines(s: Seq<char>) -> Seq<char>
    decreases s.len(),
{
    if s.len() > 0 && s.first() == '\n' {
        trim_start_newlines(s.drop_first())
    } else {
        s
    }
}

/// `s` without the line feeds at its end.
pub open spec fn trim_end_newlines(s: Seq<char>) -> Seq<char>
    decreases s.len(),
{
    if s.len() > 0 && s.last() == '\n' {
        trim_end_newlines(s.drop_last())
    } else {
        s
    }
}

/// `s` without the line feeds at its start and at its end.
pub open spec fn trim_newlines(s: Seq<char>) -> Seq<char> {
    trim_end_newlines(trim_start_newlines(s))
}

/// Where the first `a` characters are line feeds and the next one is not,
/// trimming the start leaves what follows them.
pub proof fn lemma_trim_start(s: Seq<char>, a: int)
    requires
        0 <= a <= s.len(),
        forall|j: int| 0 <= j < a ==> s[j] == '\n',
        a < s.len() ==> s[a] != '\n',
    ensures
        trim_start_newlines(s) == s.subrange(a, s.len() as int),
    decreases a,
{
    if a == 0 {
        assert(s.subrange(0, s.len() as int) =~= s);
    } else {
        let rest = s.drop_first();
        lemma_trim_start(rest, a - 1);
        assert(rest.subrange(a - 1, rest.len() as int) =~= s.subrange(a, s.len() as int));
    }
}

/// Where the characters from `b` on are line feeds and the one before is not,
/// trimming the end leaves what stands before them.
pub proof fn lemma_trim_end(s: Seq<char>, b: int)
    requires
        0 <= b <= s.len(),
        forall|j: int| b <= j < s.len() ==> s[j] == '\n',
        b > 0 ==> s[b - 1] != '\n',
    ensures
        trim_end_newlines(s) == s.take(b),
    decreases s.len() - b,
{
    if b == s.len() {
        assert(s.take(b) =~= s);
    } else {
        let rest = s.drop_last();
        lemma_trim_end(rest, b);
        assert(rest.take(b) =~= s.take(b));
    }
}

/// The text without the line feeds at its start and at its end.
pub fn trimmed_of_newlines(s: &str) -> (r: String)
    ensures
        r@ == trim_newlines(s@),
{
    let total = s.unicode_len();
    let mut lead: usize = 0;
    let mut end: usize = 0;
    let mut at: usize = 0;
    for c in it: s.chars()
        invariant
            it.seq() == s@,
            total == s@.len(),
            at == it.index(),
            lead <= at,
            lead <= end || end == 0,
            end <= at,
            forall|j: int| 0 <= j < lead ==> s@[j] == '\n',
            lead < at ==> s@[lead as int] != '\n',
            forall|j: int| end <= j < at ==> s@[j] == '\n',
            end > 0 ==> s@[end - 1] != '\n',
            end > 0 ==> lead < end,
            lead < at ==> end > 0,
    {
        if c != '\n' {
            end = at + 1;
        } else if lead == at {
            lead = at + 1;
        }
        at += 1;
    }
    let ghost first = lead as int;
    let ghost last = if end == 0 {
        first
    } else {
        end as int
    };
    proof {
        lemma_trim_start(s@, first);
        let rest = s@.subrange(first, s@.len() as int);
        lemma_trim_end(rest, last - first);
        assert(rest.take(last - first) =~= s@.subrange(first, last));
    }
    let mut out = String::new();
    let mut k: usize = 0;
    for c in it: s.chars()
        invariant
            it.seq() == s@,
            total == s@.len(),
            k == it.index(),
            lead <= total,
            end <= total,
            first == lead,
            last == if end == 0 {
                first
            } else {
                end as int
            },
            first <= last,
            out@ == s@.subrange(
                first,
                if k as int <= first {
                    first
                } else if k as int <= last {
                    k as int
                } else {
                    last
                },
            ),
    {
        if lead <= k && k < end {
            assert(s@.subrange(first, k + 1) =~= s@.subrange(first, k as int).push(c));
            out.push(c);
        }
        k += 1;
    }
    assert(out@ =~= s@.subrange(first, last));
    out
}

/// `true` or `false`, as `bool` is written.
pub open spec fn bool_text(b: bool) -> Seq<char> {
    if b {
        "true"@
    } else {
        "false"@
    }
}

/// The written form of a `bool`.
pub fn bool_str(b: bool) -> (r: &'static str)
    ensures
        r@ == bool_text(b),
{
    if b {
        "true"
    } else {
        "false"
    }
}

/// Whether the text is `true`, whatever the case of its letters.
pub open spec fn is_true_text(s: Seq<char>) -> bool {
    &&& s.len() == 4
    &&& (s[0] == 't' || s[0] == 'T')
    &&& (s[1] == 'r' || s[1] == 'R')
    &&& (s[2] == 'u' || s[2] == 'U')
    &&& (s[3] == 'e' || s[3] == 'E')
}

/// Whether the text is `true`, whatever the case of its letters.
pub fn reads_true(s: &str) -> (r: bool)
    ensures
        r == is_true_text(s@),
{
    if s.unicode_len() != 4 {
        return false;
    }
    let a = s.get_char(0);
    let b = s.get_char(1);
    let c = s.get_char(2);
    let d = s.get_char(3);
    (a == 't' || a == 'T') && (b == 'r' || b == 'R') && (c == 'u' || c == 'U') && (d == 'e' || d
        == 'E')
}

/// The views of some texts, in order.
pub open spec fn text_views(texts: Seq<String>) -> Seq<Seq<char>> {
    texts.map_values(|t: String| t@)
}

/// The texts one after the other, with the separator between each two.
pub open spec fn join_texts(parts: Seq<Seq<char>>, separator: Seq<char>) -> Seq<char>
    decreases parts.len(),
{
    if parts.len() == 0 {
        Seq::empty()
    } else if parts.len() == 1 {
        parts[0]
    } else {
        join_texts(parts.drop_last(), separator) + separator + parts.last()
    }
}

/// The texts one after the other, with the separator between each two.
pub fn join(parts: &Vec<String>, separator: &str) -> (r: String)
    ensures
        r@ == join_texts(text_views(parts@), separator@),
{
    let ghost views = text_views(parts@);
    let mut out = String::new();
    let mut i: usize = 0;
    assert(views.take(0) =~= Seq::<Seq<char>>::empty());
    while i < parts.len()
        invariant
            i <= parts.len(),
            views == text_views(parts@),
            out@ == join_texts(views.take(i as int), separator@),
        decreases parts.len() - i,
    {
        proof {
            let upto = views.take(i + 1);
            assert(upto.drop_last() =~= views.take(i as int));
            assert(upto.last() == parts[i as int]@);
            if i == 0 {
                assert(join_texts(upto, separator@) == upto[0]);
            } else {
                assert(join_texts(upto, separator@) == join_texts(upto.drop_last(), separator@)
                    + separator@ + upto.last());
            }
        }
        if i > 0 {
            out.append(separator);
        }
        out.append(parts[i].as_str());
        proof {
            assert(out@ =~= join_texts(views.take(i + 1), separator@));
        }
        i += 1;
    }
    assert(views.take(i as int) =~= views);
    out
}

/// Whether Markdown gives the character a meaning of its own.
pub open spec fn is_markdown_mark(c: char) -> bool {
    c == '*' || c == '_' || c == '`' || c == '~' || c == '.' || c == '-' || c == '=' || c == '>'
        || c == '<'
}

/// The text with a backslash before each character that Markdown gives a
/// meaning of its own.
pub open spec fn escape_markdown_text(text: Seq<char>) -> Seq<char>
    decreases text.len(),
{
    if text.len() == 0 {
        Seq::empty()
    } else if is_markdown_mark(text.last()) {
        escape_markdown_text(text.drop_last()).push('\\').push(text.last())
    } else {
        escape_markdown_text(text.drop_last()).push(text.last())
    }
}

/// The text with a backslash before each character that Markdown gives a
/// meaning of its own.
pub fn escape_markdown(text: &str) -> (r: String)
    ensures
        r@ == escape_markdown_text(text@),
{
    let mut out = String::new();
    assert(text@.take(0) =~= Seq::<char>::empty());
    for c in it: text.chars()
        invariant
            it.seq() == text@,
            out@ == escape_markdown_text(text@.take(it.index() as int)),
    {
        proof {
            let upto = text@.take(it.index() + 1);
            assert(upto.drop_last() =~= text@.take(it.index() as int));
            assert(upto.last() == c);
            assert(escape_markdown_text(upto) == if is_markdown_mark(c) {
                escape_markdown_text(upto.drop_last()).push('\\').push(c)
            } else {
                escape_markdown_text(upto.drop_last()).push(c)
            });
        }
        if c == '*' || c == '_' || c == '`' || c == '~' || c == '.' || c == '-' || c == '=' || c
            == '>' || c == '<' {
            out.push('\\');
        }
        out.push(c);
    }
    assert(text@.take(text@.len() as int) =~= text@);
    out
}

/// Whether the text is one of the given ones.
pub fn contains_text(texts: &Vec<String>, text: &str) -> (r: bool)
    ensures
        r == text_views(texts@).contains(text@),
{
    let mut i: usize = 0;
    while i < texts.len()
        invariant
            i <= texts.len(),
            forall|j: int| 0 <= j < i ==> text_views(texts@)[j] != text@,
        decreases texts.len() - i,
    {
        if texts[i].as_str().eq(text) {
            assert(text_views(texts@)[i as int] == text@);
            return true;
        }
        i += 1;
    }
    false
}

/// The capital of a small ASCII letter, and any other character as it is.
pub open spec fn ascii_upper(c: char) -> char {
    if 'a' <= c && c <= 'z' {
        ((c as u8) - 32) as char
    } else {
        c
    }
}

/// The text with its small ASCII letters as capitals.
pub open spec fn ascii_uppercase(text: Seq<char>) -> Seq<char> {
    text.map_values(|c: char| ascii_upper(c))
}

/// The capital of a small ASCII letter, and any other character as it is.
pub fn to_ascii_upper(c: char) -> (r: char)
    ensures
        r == ascii_upper(c),
{
    if 'a' <= c && c <= 'z' {
        ((c as u8) - 32) as char
    } else {
        c
    }
}

/// The text with its small ASCII letters as capitals.
pub fn to_ascii_uppercase(text: &str) -> (r: String)
    ensures
        r@ == ascii_uppercase(text@),
{
    let mut out = String::new();
    for c in it: text.chars()
        invariant
            it.seq() == text@,
            out@ == ascii_uppercase(text@.take(it.index() as int)),
    {
        assert(ascii_uppercase(text@.take(it.index() + 1)) =~= ascii_uppercase(
            text@.take(it.index() as int),
        ).push(ascii_upper(c)));
        out.push(to_ascii_upper(c));
    }
    assert(text@.take(text@.len() as int) =~= text@);
    out
}

/// A name in two parts: what stands before its first full stop, and what
/// stands after it. A name without a full stop is all first part.
pub fn split_at_first_stop(text: &str) -> (r: (String, String))
    ensures
        r.0@ + (if text@.contains('.') {
            seq!['.']
        } else {
            Seq::<char>::empty()
        }) + r.1@ == text@,
        !r.0@.contains('.'),
        !text@.contains('.') ==> r.1@.len() == 0,
{
    let mut head = String::new();
    let mut tail = String::new();
    let mut seen = false;
    for c in it: text.chars()
        invariant
            it.seq() == text@,
            !head@.contains('.'),
            seen == text@.take(it.index() as int).contains('.'),
            !seen ==> head@ == text@.take(it.index() as int) && tail@.len() == 0,
            seen ==> head@ + seq!['.'] + tail@ == text@.take(it.index() as int),
    {
        let ghost upto = text@.take(it.index() + 1);
        let ghost before = text@.take(it.index() as int);
        proof {
            assert(upto =~= before.push(c));
            if before.contains('.') {
                let j = choose|j: int| 0 <= j < before.len() && before[j] == '.';
                assert(upto[j] == '.');
            }
            if upto.contains('.') && c != '.' {
                let j = choose|j: int| 0 <= j < upto.len() && upto[j] == '.';
                assert(before[j] == '.');
            }
        }
        let ghost old_head = head@;
        let ghost old_tail = tail@;
        if seen {
            tail.push(c);
            assert(head@ + seq!['.'] + tail@ =~= (old_head + seq!['.'] + old_tail).push(c));
        } else if c == '.' {
            seen = true;
            assert(upto[upto.len() - 1] == '.');
            assert(head@ + seq!['.'] + tail@ =~= upto);
        } else {
            head.push(c);
            assert forall|j: int| 0 <= j < head@.len() implies head@[j] != '.' by {
                if j < old_head.len() {
                    assert(old_head[j] != '.');
                }
            }
        }
    }
    assert(text@.take(text@.len() as int) =~= text@);
    proof {
        if !seen {
            assert(head@ + Seq::<char>::empty() + tail@ =~= text@);
        }
    }
    (head, tail)
}

/// The text without the white space at its start and at its end, as
/// `str::trim` leaves it.
pub uninterp spec fn trimmed(text: Seq<char>) -> Seq<char>;

/// The text in small letters, as `str::to_lowercase` writes it.
pub uninterp spec fn lowercase(text: Seq<char>) -> Seq<char>;

/// What stands in a text behind its last line feed.
pub open spec fn open_line(text: Seq<char>) -> Seq<char>
    decreases text.len(),
{
    if text.len() == 0 || text.last() == '\n' {
        Seq::empty()
    } else {
        open_line(text.drop_last()).push(text.last())
    }
}

/// A line without the carriage return that may end it.
pub open spec fn without_return(line: Seq<char>) -> Seq<char> {
    if line.len() > 0 && line.last() == '\r' {
        line.drop_last()
    } else {
        line
    }
}

/// The lines of a text that a line feed ends, each without the line feed
/// and without the carriage return that may stand before it.
pub open spec fn ended_lines(text: Seq<char>) -> Seq<Seq<char>>
    decreases text.len(),
{
    if text.len() == 0 {
        Seq::empty()
    } else if text.last() == '\n' {
        ended_lines(text.drop_last()).push(without_return(open_line(text.drop_last())))
    } else {
        ended_lines(text.drop_last())
    }
}

/// The lines of a text, as `str::lines` tells them: the lines that a line
/// feed ends, and then what stands behind the last line feed, as it is,
/// where anything stands there.
pub open spec fn text_lines(text: Seq<char>) -> Seq<Seq<char>> {
    if open_line(text).len() > 0 {
        ended_lines(text).push(open_line(text))
    } else {
        ended_lines(text)
    }
}

/// The lines of a text.
pub fn lines_of(text: &str) -> (lines: Vec<String>)
    ensures
        text_views(lines@) == text_lines(text@),
{
    let mut lines: Vec<String> = Vec::new();
    let mut line = String::new();
    let mut pending = false;
    assert(text@.take(0) =~= Seq::<char>::empty());
    assert(text_views(lines@) =~= ended_lines(text@.take(0)));
    assert(line@ =~= open_line(text@.take(0)));
    for c in it: text.chars()
        invariant
            it.seq() == text@,
            text_views(lines@) == ended_lines(text@.take(it.index() as int)),
            open_line(text@.take(it.index() as int)) == if pending {
                line@.push('\r')
            } else {
                line@
            },
            !pending ==> line@.len() == 0 || line@.last() != '\r',
    {
        let ghost seen = text@.take(it.index() as int);
        let ghost upto = text@.take(it.index() + 1);
        let ghost before = lines@;
        proof {
            assert(upto.drop_last() =~= seen);
            assert(upto.last() == c);
            assert(open_line(upto) == if c == '\n' {
                Seq::<char>::empty()
            } else {
                open_line(seen).push(c)
            });
            assert(ended_lines(upto) == if c == '\n' {
                ended_lines(seen).push(without_return(open_line(seen)))
            } else {
                ended_lines(seen)
            });
        }
        if c == '\n' {
            proof {
                if pending {
                    assert(line@.push('\r').drop_last() =~= line@);
                }
            }
            lines.push(line);
            line = String::new();
            pending = false;
            assert(text_views(lines@) =~= text_views(before).push(without_return(open_line(seen))));
        } else {
            if pending {
                line.push('\r');
            }
            if c == '\r' {
                pending = true;
            } else {
                pending = false;
                line.push(c);
            }
        }
    }
    assert(text@.take(text@.len() as int) =~= text@);
    let ghost ended = lines@;
    if pending {
        line.push('\r');
    }
    if line.as_str().unicode_len() > 0 {
        lines.push(line);
        assert(text_views(lines@) =~= text_views(ended).push(open_line(text@)));
    }
    lines
}

/// Calls `str::trim`. Claimed: the result depends on the text alone.
#[verifier::external_body]
pub(crate) fn trim(text: &str) -> (r: &str)
    ensures
        r@ == trimmed(text@),
{
    text.trim()
}

/// Calls `str::to_lowercase`. Claimed: the result depends on the text
/// alone.
#[verifier::external_body]
pub(crate) fn to_lowercase(text: &str) -> (r: String)
    ensures
        r@ == lowercase(text@),
{
    text.to_lowercase()
}

/// Whether `marker` stands in `text` at the place `at`.
pub open spec fn occurs_at(text: Seq<char>, marker: Seq<char>, at: int) -> bool {
    0 <= at && at + marker.len() <= text.len() && text.subrange(at, at + marker.len()) == marker
}

/// Whether `before` is what stands in `text` before the first `marker`: all
/// of the text where it holds no marker.
pub open spec fn is_before_marker(text: Seq<char>, marker: Seq<char>, before: Seq<char>) -> bool {
    if exists|at: int| occurs_at(text, marker, at) {
        &&& occurs_at(text, marker, before.len() as int)
        &&& before == text.take(before.len() as int)
        &&& forall|at: int| 0 <= at < before.len() ==> !occurs_at(text, marker, at)
    } else {
        before == text
    }
}

/// Calls `str::split` and takes the first part, which there always is: what
/// stands before the first occurrence of the marker.
#[verifier::external_body]
pub(crate) fn before_marker<'a>(text: &'a str, marker: &str) -> (before: &'a str)
    ensures
        is_before_marker(text@, marker@, before@),
{
    text.split(marker).next().unwrap_or(text)
}

/// Whether `a` comes before `b` in the order of `str`: by the first
/// character in which they differ, and the shorter first where one starts
/// the other.
pub open spec fn text_lt(a: Seq<char>, b: Seq<char>) -> bool
    decreases a.len(),
{
    if b.len() == 0 {
        false
    } else if a.len() == 0 {
        true
    } else if a[0] != b[0] {
        (a[0] as int) < (b[0] as int)
    } else {
        text_lt(a.drop_first(), b.drop_first())
    }
}

/// Whether the texts stand in ascending order.
pub open spec fn is_ascending(texts: Seq<Seq<char>>) -> bool {
    forall|i: int, j: int| 0 <= i < j < texts.len() ==> !text_lt(texts[j], texts[i])
}

/// Calls `sort` on the vector. Claimed, as std documents it: the result
/// holds the same texts as often, in ascending order of `str`, which goes
/// by the values of the bytes and so by the code points.
#[verifier::external_body]
pub(crate) fn sort_texts(texts: &mut Vec<String>)
    ensures
        text_views(final(texts)@).to_multiset() == text_views(old(texts)@).to_multiset(),
        is_ascending(text_views(final(texts)@)),
{
    texts.sort();
}

/// The texts without repetition, each at the place where it first occurs.
pub open spec fn distinct_texts(texts: Seq<Seq<char>>) -> Seq<Seq<char>>
    decreases texts.len(),
{
    if texts.len() == 0 {
        Seq::empty()
    } else {
        let before = distinct_texts(texts.drop_last());
        if before.contains(texts.last()) {
            before
        } else {
            before.push(texts.last())
        }
    }
}

/// The texts without repetition, each at the place where it first occurs.
pub fn without_repetition(texts: &Vec<String>) -> (r: Vec<String>)
    ensures
        text_views(r@) == distinct_texts(text_views(texts@)),
{
    let ghost views = text_views(texts@);
    let mut out: Vec<String> = Vec::new();
    let mut i: usize = 0;
    assert(views.take(0) =~= Seq::<Seq<char>>::empty());
    assert(text_views(out@) =~= Seq::<Seq<char>>::empty());
    while i < texts.len()
        invariant
            i <= texts.len(),
            views == text_views(texts@),
            text_views(out@) == distinct_texts(views.take(i as int)),
        decreases texts.len() - i,
    {
        let ghost before = out@;
        proof {
            let upto = views.take(i + 1);
            assert(upto.drop_last() =~= views.take(i as int));
            assert(upto.last() == texts[i as int]@);
            let rest = distinct_texts(upto.drop_last());
            assert(distinct_texts(upto) == if rest.contains(upto.last()) {
                rest
            } else {
                rest.push(upto.last())
            });
        }
        if !contains_text(&out, texts[i].as_str()) {
            out.push(texts[i].clone());
            assert(text_views(out@) =~= text_views(before).push(texts[i as int]@));
        }
        i += 1;
    }
    assert(views.take(i as int) =~= views);
    out
}

/// How many line feeds a text holds.
pub open spec fn line_feeds(text: Seq<char>) -> nat
    decreases text.len(),
{
    if text.len() == 0 {
        0
    } else if text.last() == '\n' {
        line_feeds(text.drop_last()) + 1
    } else {
        line_feeds(text.drop_last())
    }
}

/// Two texts one after the other hold the line feeds of both.
pub proof fn lemma_line_feeds_add(a: Seq<char>, b: Seq<char>)
    ensures
        line_feeds(a + b) == line_feeds(a) + line_feeds(b),
    decreases b.len(),
{
    if b.len() == 0 {
        assert(a + b =~= a);
    } else {
        lemma_line_feeds_add(a, b.drop_last());
        assert((a + b).drop_last() =~= a + b.drop_last());
        assert((a + b).last() == b.last());
    }
}

/// A text without a line feed holds none.
pub proof fn lemma_line_feeds_none(a: Seq<char>)
    requires
        !a.contains('\n'),
    ensures
        line_feeds(a) == 0,
    decreases a.len(),
{
    if a.len() > 0 {
        assert(a[a.len() - 1] != '\n');
        assert forall|i: int| 0 <= i < a.drop_last().len() implies a.drop_last()[i] != '\n' by {
            assert(a[i] != '\n');
        }
        lemma_line_feeds_none(a.drop_last());
    }
}

/// Of a text that neither starts nor ends with a line feed, trimming leaves
/// all, and of the text with one line feed more at its end as well.
pub proof fn lemma_trim_line(a: Seq<char>)
    requires
        a.len() > 0,
        a[0] != '\n',
        a.last() != '\n',
    ensures
        trim_newlines(a) == a,
        trim_newlines(a.push('\n')) == a,
{
    let more = a.push('\n');
    assert(more[0] == a[0]);
    assert(more.drop_last() =~= a);
    assert(trim_end_newlines(more) == trim_end_newlines(more.drop_last()));
}

} // verus!
