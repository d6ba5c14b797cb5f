//! What becomes of a message that the server sends.
use vstd::prelude::*;

use crate::email::{address_of, bracketed_from, domain_of, EmailV};
use crate::gmail::{header_views, last_value, GmailMessage, HeaderV};
use crate::headers::{is_header, message_ids, mime_value, threading_of, unfolded};
use crate::imap_client::{sender, FetchedMessage};
use crate::text::{
    all_digits, decimal, digits_value, is_white_space, law_decimal_reads_back, lines_of, lowercase,
    occurs_at, position_from, replaced, trimmed, utf8_lossy,
};
use crate::threading::{
    law_linked_messages_share_a_thread, law_thread_ids_tell_threads_apart, linked_by,
    respects_links, same_thread, with_thread_ids,
};
use crate::timestamp::{email_date, formatted_instant, rfc2822_instant, Timestamp};

verus! {

broadcast use vstd::seq_lib::group_seq_properties;

// ---------------------------------------------------------------------------
// Texts

/// Whether two places of a text have all the white space at its ends outside of them, and
/// nothing else.
pub open spec fn is_core(s: Seq<char>, a: int, b: int) -> bool {
    &&& 0 <= a <= b <= s.len()
    &&& forall|k: int| 0 <= k < a ==> is_white_space(#[trigger] s[k])
    &&& forall|k: int| b <= k < s.len() ==> is_white_space(#[trigger] s[k])
    &&& a < b ==> !is_white_space(s[a]) && !is_white_space(s[b - 1])
}

/// Whether a text is another one without the white space at its ends.
pub open spec fn is_trimmed(t: Seq<char>, s: Seq<char>) -> bool {
    exists|a: int, b: int| #[trigger] is_core(s, a, b) && t == s.subrange(a, b)
}

proof fn lemma_core_later(s: Seq<char>, a: int, b: int)
    requires
        s.len() > 0,
        is_white_space(s[0]),
        is_core(s.skip(1), a, b),
    ensures
        is_core(s, a + 1, b + 1),
{
    let t = s.skip(1);
    assert forall|k: int| 0 <= k < a + 1 implies is_white_space(#[trigger] s[k]) by {
        if k > 0 {
            assert(is_white_space(t[k - 1]));
        }
    }
    assert forall|k: int| b + 1 <= k < s.len() implies is_white_space(#[trigger] s[k]) by {
        assert(is_white_space(t[k - 1]));
    }
}

proof fn lemma_core_earlier(s: Seq<char>, a: int, b: int)
    requires
        s.len() > 0,
        is_white_space(s[s.len() - 1]),
        is_core(s.take(s.len() - 1), a, b),
    ensures
        is_core(s, a, b),
{
    let t = s.take(s.len() - 1);
    assert forall|k: int| 0 <= k < a implies is_white_space(#[trigger] s[k]) by {
        assert(is_white_space(t[k]));
    }
    assert forall|k: int| b <= k < s.len() implies is_white_space(#[trigger] s[k]) by {
        if k < t.len() {
            assert(is_white_space(t[k]));
        }
    }
}

/// Trimming takes away the white space at the ends, all of it, and nothing else.
pub proof fn law_trimming_takes_white_space_away(s: Seq<char>)
    ensures
        is_trimmed(trimmed(s), s),
    decreases s.len(),
{
    if s.len() == 0 {
        assert(is_core(s, 0, 0));
        assert(s.subrange(0, 0) =~= s);
    } else if is_white_space(s.first()) {
        let t = s.skip(1);
        assert(s.drop_first() =~= t);
        law_trimming_takes_white_space_away(t);
        let (a, b) = choose|a: int, b: int| #[trigger]
            is_core(t, a, b) && trimmed(t) == t.subrange(a, b);
        lemma_core_later(s, a, b);
        assert(t.subrange(a, b) =~= s.subrange(a + 1, b + 1));
    } else if is_white_space(s.last()) {
        let t = s.take(s.len() - 1);
        assert(s.drop_last() =~= t);
        law_trimming_takes_white_space_away(t);
        let (a, b) = choose|a: int, b: int| #[trigger]
            is_core(t, a, b) && trimmed(t) == t.subrange(a, b);
        lemma_core_earlier(s, a, b);
        assert(t.subrange(a, b) =~= s.subrange(a, b));
    } else {
        assert(is_core(s, 0, s.len() as int));
        assert(s.subrange(0, s.len() as int) =~= s);
    }
}

/// Lines, each with a line break behind it.
pub open spec fn with_breaks(lines: Seq<Seq<char>>) -> Seq<char>
    decreases lines.len(),
{
    if lines.len() == 0 {
        Seq::empty()
    } else {
        lines.first() + seq!['\r', '\n'] + with_breaks(lines.drop_first())
    }
}

proof fn lemma_first_place(s: Seq<char>, c: char, from: int, at: int)
    requires
        0 <= from <= at <= s.len(),
        at < s.len() ==> s[at] == c,
        forall|k: int| from <= k < at ==> #[trigger] s[k] != c,
    ensures
        position_from(s, c, from) == at,
    decreases at - from,
{
    if from < at {
        assert(s[from] != c);
        lemma_first_place(s, c, from + 1, at);
    }
}

/// Lines that are sent one after the other are read one by one.
pub proof fn law_lines_are_read_back(lines: Seq<Seq<char>>)
    requires
        forall|i: int, k: int|
            0 <= i < lines.len() && 0 <= k < lines[i].len() ==> #[trigger] lines[i][k] != '\n',
    ensures
        lines_of(with_breaks(lines)) == lines,
    decreases lines.len(),
{
    let s = with_breaks(lines);
    if lines.len() > 0 {
        let rest = lines.drop_first();
        let first = lines.first();
        assert forall|i: int, k: int|
            0 <= i < rest.len() && 0 <= k < rest[i].len() implies #[trigger] rest[i][k]
            != '\n' by {
            assert(rest[i] == lines[i + 1]);
            assert(lines[i + 1][k] != '\n');
        }
        law_lines_are_read_back(rest);
        let end = first.len() as int + 1;
        assert(s[end] == '\n');
        assert forall|k: int| 0 <= k < end implies #[trigger] s[k] != '\n' by {
            if k < first.len() {
                assert(lines[0][k] != '\n');
            }
        }
        lemma_first_place(s, '\n', 0, end);
        assert(s.take(end) =~= first.push('\r'));
        assert(first.push('\r').drop_last() =~= first);
        assert(s.skip(end + 1) =~= with_breaks(rest));
        assert(seq![first] + rest =~= lines);
    }
}

/// Replacing a text that is not there changes nothing. Where it is there, what comes before
/// the first place of it stays, and what comes after it is treated alike.
pub proof fn law_replacing_replaces_each(s: Seq<char>, p: Seq<char>, r: Seq<char>, at: int)
    requires
        p.len() > 0,
        0 <= at,
        forall|i: int| 0 <= i < at ==> !(#[trigger] occurs_at(s, p, i)),
    ensures
        occurs_at(s, p, at) ==> replaced(s, p, r) == s.take(at) + r + replaced(
            s.skip(at + p.len()),
            p,
            r,
        ),
        at >= s.len() ==> replaced(s, p, r) == s,
    decreases s.len(),
{
    if s.len() > 0 && at > 0 {
        let t = s.skip(1);
        assert(!occurs_at(s, p, 0));
        assert forall|i: int| 0 <= i < at - 1 implies !(#[trigger] occurs_at(t, p, i)) by {
            if occurs_at(t, p, i) {
                assert(t.subrange(i, i + p.len()) =~= s.subrange(i + 1, i + 1 + p.len()));
                assert(occurs_at(s, p, i + 1));
            }
        }
        law_replacing_replaces_each(t, p, r, at - 1);
        if occurs_at(s, p, at) {
            assert(t.subrange(at - 1, at - 1 + p.len()) =~= s.subrange(at, at + p.len()));
            assert(occurs_at(t, p, at - 1));
            assert(t.skip(at - 1 + p.len()) =~= s.skip(at + p.len()));
            assert(seq![s[0]] + (t.take(at - 1) + r + replaced(s.skip(at + p.len()), p, r))
                =~= s.take(at) + r + replaced(s.skip(at + p.len()), p, r));
        }
        assert(seq![s[0]] + t =~= s);
    } else if s.len() > 0 {
        if occurs_at(s, p, 0) {
            assert(s.take(0) + r =~= r);
        }
    }
}

// ---------------------------------------------------------------------------
// Header lines

/// A letter in lowercase, as far as ASCII goes.
pub open spec fn small(c: char) -> char {
    if 'A' <= c <= 'Z' {
        ((c as u8) + 32) as char
    } else {
        c
    }
}

/// Whether a line begins with the name of a header, letter case aside.
pub open spec fn is_line_of(line: Seq<char>, name: Seq<char>) -> bool {
    line.len() >= name.len() && forall|k: int|
        0 <= k < name.len() ==> small(#[trigger] line[k]) == name[k]
}

proof fn lemma_line_of(line: Seq<char>, name: Seq<char>)
    requires
        forall|k: int| 0 <= k < name.len() ==> !('A' <= #[trigger] name[k] <= 'Z'),
    ensures
        is_header(line, name) <==> is_line_of(line, name),
{
    if line.len() >= name.len() {
        let head = line.take(name.len() as int);
        let a = crate::text::ascii_lower(head);
        let b = crate::text::ascii_lower(name);
        assert(b =~= name);
        assert forall|k: int| 0 <= k < name.len() implies #[trigger] a[k] == small(line[k]) by {
            assert(head[k] == line[k]);
        }
        if a == b {
            assert forall|k: int| 0 <= k < name.len() implies small(#[trigger] line[k])
                == name[k] by {
                assert(a[k] == b[k]);
            }
        }
        if is_line_of(line, name) {
            assert forall|k: int| 0 <= k < name.len() implies a[k] == b[k] by {
                assert(small(line[k]) == name[k]);
            }
            assert(a =~= b);
        }
    }
}

proof fn lemma_line_kinds(line: Seq<char>)
    ensures
        is_header(line, "message-id:"@) <==> is_line_of(line, "message-id:"@),
        is_header(line, "in-reply-to:"@) <==> is_line_of(line, "in-reply-to:"@),
        is_header(line, "references:"@) <==> is_line_of(line, "references:"@),
        "message-id:"@.len() == 11,
        "in-reply-to:"@.len() == 12,
        "references:"@.len() == 11,
        is_line_of(line, "message-id:"@) ==> !is_line_of(line, "in-reply-to:"@) && !is_line_of(
            line,
            "references:"@,
        ),
        is_line_of(line, "in-reply-to:"@) ==> !is_line_of(line, "references:"@),
{
    reveal_strlit("message-id:");
    reveal_strlit("in-reply-to:");
    reveal_strlit("references:");
    lemma_line_of(line, "message-id:"@);
    lemma_line_of(line, "in-reply-to:"@);
    lemma_line_of(line, "references:"@);
    if is_line_of(line, "message-id:"@) {
        assert(small(line[0]) == 'm');
    }
    if is_line_of(line, "in-reply-to:"@) {
        assert(small(line[0]) == 'i');
    }
    if is_line_of(line, "references:"@) {
        assert(small(line[0]) == 'r');
    }
}

/// Whether a line is the last of its name among some lines.
pub open spec fn is_last_of(lines: Seq<Seq<char>>, i: int, name: Seq<char>) -> bool {
    &&& 0 <= i < lines.len()
    &&& is_line_of(lines[i], name)
    &&& forall|j: int| i < j < lines.len() ==> !is_line_of(#[trigger] lines[j], name)
}

/// Whether no line is of a name.
pub open spec fn is_absent(lines: Seq<Seq<char>>, name: Seq<char>) -> bool {
    forall|j: int| 0 <= j < lines.len() ==> !is_line_of(#[trigger] lines[j], name)
}

proof fn lemma_header_lines(lines: Seq<Seq<char>>, i: int)
    ensures
        is_last_of(lines, i, "message-id:"@) ==> threading_of(lines).message_id == Some(
            trimmed(lines[i].skip(11)),
        ),
        is_last_of(lines, i, "in-reply-to:"@) ==> threading_of(lines).in_reply_to == Some(
            trimmed(lines[i].skip(12)),
        ),
        is_last_of(lines, i, "references:"@) ==> threading_of(lines).references == message_ids(
            trimmed(lines[i].skip(11)),
        ),
        is_absent(lines, "message-id:"@) ==> threading_of(lines).message_id is None,
        is_absent(lines, "in-reply-to:"@) ==> threading_of(lines).in_reply_to is None,
        is_absent(lines, "references:"@) ==> threading_of(lines).references.len() == 0,
    decreases lines.len(),
{
    if lines.len() > 0 {
        let t = lines.drop_last();
        let n = lines.len() - 1;
        lemma_header_lines(t, i);
        lemma_line_kinds(lines[n]);
        assert(lines.last() == lines[n]);
        assert forall|j: int| 0 <= j < t.len() implies #[trigger] t[j] == lines[j] by {}
        lemma_shorter(lines, i, "message-id:"@);
        lemma_shorter(lines, i, "in-reply-to:"@);
        lemma_shorter(lines, i, "references:"@);
    }
}

proof fn lemma_shorter(lines: Seq<Seq<char>>, i: int, name: Seq<char>)
    requires
        lines.len() > 0,
    ensures
        is_last_of(lines, i, name) && i < lines.len() - 1 ==> is_last_of(lines.drop_last(), i, name)
            && !is_line_of(lines.last(), name),
        is_absent(lines, name) ==> is_absent(lines.drop_last(), name) && !is_line_of(
            lines.last(),
            name,
        ),
{
    let t = lines.drop_last();
    if is_last_of(lines, i, name) && i < lines.len() - 1 {
        assert(!is_line_of(lines[lines.len() - 1], name));
        assert forall|j: int| i < j < t.len() implies !is_line_of(#[trigger] t[j], name) by {
            assert(!is_line_of(lines[j], name));
        }
    }
    if is_absent(lines, name) {
        assert(!is_line_of(lines[lines.len() - 1], name));
        assert forall|j: int| 0 <= j < t.len() implies !is_line_of(#[trigger] t[j], name) by {
            assert(!is_line_of(lines[j], name));
        }
    }
}

/// The lines of the headers of a message, folded lines made whole.
pub open spec fn header_lines(m: FetchedMessage) -> Seq<Seq<char>> {
    match m.header {
        Some(bytes) => lines_of(unfolded(utf8_lossy(bytes@))),
        None => Seq::empty(),
    }
}

/// A message is tied to others by what its headers say: its Message-ID is the value of the
/// last such line, the message that it answers that of the last In-Reply-To line, and those
/// before it that of the last References line, each without the white space around it.
pub proof fn law_headers_tie_messages(m: FetchedMessage, folder: Seq<char>, now: Timestamp, i: int)
    requires
        m.is_complete(),
    ensures
        ({
            let e = m.email(folder, now);
            let lines = header_lines(m);
            &&& is_last_of(lines, i, "message-id:"@) ==> e.message_id is Some && is_trimmed(
                e.message_id->0,
                lines[i].skip(11),
            )
            &&& is_absent(lines, "message-id:"@) ==> e.message_id is None
            &&& is_last_of(lines, i, "in-reply-to:"@) ==> e.in_reply_to is Some && is_trimmed(
                e.in_reply_to->0,
                lines[i].skip(12),
            )
            &&& is_absent(lines, "in-reply-to:"@) ==> e.in_reply_to is None
            &&& is_last_of(lines, i, "references:"@) ==> e.references == message_ids(
                trimmed(lines[i].skip(11)),
            )
            &&& is_absent(lines, "references:"@) ==> e.references.len() == 0
        }),
{
    let lines = header_lines(m);
    lemma_header_lines(lines, i);
    if 0 <= i < lines.len() {
        law_trimming_takes_white_space_away(lines[i].skip(11));
        law_trimming_takes_white_space_away(lines[i].skip(12));
    }
}

// ---------------------------------------------------------------------------
// The other parts of a message

/// Bytes as text, where there are any.
pub open spec fn as_text(bytes: Option<Vec<u8>>) -> Option<Seq<char>> {
    match bytes {
        Some(b) => Some(utf8_lossy(b@)),
        None => None,
    }
}

/// A message keeps its UID, its folder, its subject and its date: the UID is written in
/// digits; a subject with encoded words is decoded where that can be done and taken as it is
/// otherwise; the snippet is how the subject begins; the present serves for a date that
/// cannot be read.
pub proof fn law_messages_keep_what_the_server_says(
    m: FetchedMessage,
    folder: Seq<char>,
    now: Timestamp,
)
    requires
        m.is_complete(),
    ensures
        ({
            let e = m.email(folder, now);
            let envelope = m.envelope->0;
            &&& all_digits(e.id) && digits_value(e.id) == m.uid->0
            &&& folder.len() > 0 ==> e.source_folder == folder
            &&& e.body is None
            &&& as_text(envelope.subject) is None ==> e.subject.len() == 0
            &&& as_text(envelope.subject) is Some ==> {
                let subject = as_text(envelope.subject)->0;
                let decoded = mime_value("X: "@ + subject);
                let encoded = exists|k: int| occurs_at(subject, "=?"@, k);
                &&& encoded && decoded is Some ==> e.subject == decoded->0
                &&& !encoded || decoded is None ==> e.subject == subject
            }
            &&& e.snippet.len() <= 100 && e.snippet.len() <= e.subject.len()
            &&& e.snippet == e.subject.take(e.snippet.len() as int)
            &&& e.snippet.len() < 100 ==> e.snippet.len() == e.subject.len()
            &&& as_text(envelope.date) is None ==> e.date == now
            &&& as_text(envelope.date) is Some && email_date(as_text(envelope.date)->0) is None
                ==> e.date == now
            &&& as_text(envelope.date) is Some && email_date(as_text(envelope.date)->0) is Some
                ==> e.date == email_date(as_text(envelope.date)->0)->0
        }),
{
    let e = m.email(folder, now);
    law_decimal_reads_back(m.uid->0 as nat);
    assert(e.snippet =~= e.subject.take(e.snippet.len() as int));
}

/// A date is read as the mail format has it, where it is in that format; otherwise by the
/// first of the other formats that it is in.
pub proof fn law_dates_are_read_by_the_first_format(text: Seq<char>)
    ensures
        ({
            let mail = rfc2822_instant(text);
            let a = formatted_instant(text, "%a, %d %b %Y %H:%M:%S %z"@);
            let b = formatted_instant(text, "%d %b %Y %H:%M:%S %z"@);
            let c = formatted_instant(text, "%a, %d %b %Y %H:%M:%S %Z"@);
            let read = if mail is Some {
                mail
            } else if a is Some {
                a
            } else if b is Some {
                b
            } else {
                c
            };
            read is Some ==> email_date(text) == Some(
                Timestamp { secs: (read->0).0, nanos: (read->0).1 },
            )
        }),
{
    reveal_with_fuel(crate::timestamp::chosen_date, 5);
    let mail = crate::timestamp::instant(rfc2822_instant(text));
    let a = crate::timestamp::instant(formatted_instant(text, "%a, %d %b %Y %H:%M:%S %z"@));
    let b = crate::timestamp::instant(formatted_instant(text, "%d %b %Y %H:%M:%S %z"@));
    let c = crate::timestamp::instant(formatted_instant(text, "%a, %d %b %Y %H:%M:%S %Z"@));
    let all = seq![a, b, c];
    assert(all.drop_first() =~= seq![b, c]);
    assert(seq![b, c].drop_first() =~= seq![c]);
    assert(seq![c].drop_first() =~= Seq::<Option<Timestamp>>::empty());
}

/// A date that is in none of the formats and is a number is that many seconds after the
/// beginning of 1970.
pub proof fn law_numbers_are_seconds(n: u32)
    requires
        ({
            let text = decimal(n as nat);
            &&& rfc2822_instant(text) is None
            &&& formatted_instant(text, "%a, %d %b %Y %H:%M:%S %z"@) is None
            &&& formatted_instant(text, "%d %b %Y %H:%M:%S %z"@) is None
            &&& formatted_instant(text, "%a, %d %b %Y %H:%M:%S %Z"@) is None
        }),
    ensures
        email_date(decimal(n as nat)) == Some(Timestamp { secs: n as i64, nanos: 0 }),
{
    let text = decimal(n as nat);
    law_decimal_reads_back(n as nat);
    assert(text.len() > 0);
    assert(crate::text::is_digit(text[0]));
    reveal_with_fuel(crate::timestamp::chosen_date, 5);
    let a = crate::timestamp::instant(formatted_instant(text, "%a, %d %b %Y %H:%M:%S %z"@));
    let b = crate::timestamp::instant(formatted_instant(text, "%d %b %Y %H:%M:%S %z"@));
    let c = crate::timestamp::instant(formatted_instant(text, "%a, %d %b %Y %H:%M:%S %Z"@));
    assert(seq![a, b, c].drop_first() =~= seq![b, c]);
    assert(seq![b, c].drop_first() =~= seq![c]);
    assert(seq![c].drop_first() =~= Seq::<Option<Timestamp>>::empty());
}

/// Whether a text is free of carriage returns.
pub open spec fn is_unbroken(s: Seq<char>) -> bool {
    forall|k: int| 0 <= k < s.len() ==> #[trigger] s[k] != '\r'
}

proof fn lemma_no_break(s: Seq<char>, p: Seq<char>, r: Seq<char>)
    requires
        is_unbroken(s),
        p.len() > 0,
        p[0] == '\r',
    ensures
        replaced(s, p, r) == s,
{
    assert forall|i: int| 0 <= i < s.len() implies !(#[trigger] occurs_at(s, p, i)) by {
        if occurs_at(s, p, i) {
            assert(s.subrange(i, i + p.len())[0] == s[i]);
        }
    }
    law_replacing_replaces_each(s, p, r, s.len() as int);
}

proof fn lemma_one_break(a: Seq<char>, p: Seq<char>, b: Seq<char>, r: Seq<char>)
    requires
        is_unbroken(a),
        is_unbroken(b),
        p.len() > 0,
        p[0] == '\r',
    ensures
        replaced(a + p + b, p, r) == a + r + b,
{
    let s = a + p + b;
    let at = a.len() as int;
    assert forall|i: int| 0 <= i < at implies !(#[trigger] occurs_at(s, p, i)) by {
        if occurs_at(s, p, i) {
            assert(s.subrange(i, i + p.len())[0] == a[i]);
        }
    }
    assert(s.subrange(at, at + p.len()) =~= p);
    assert(occurs_at(s, p, at));
    law_replacing_replaces_each(s, p, r, at);
    assert(s.take(at) =~= a);
    assert(s.skip(at + p.len()) =~= b);
    lemma_no_break(b, p, r);
}

/// A header line that is folded, with a space or with a tab, is made whole: a space stands
/// where the fold was.
pub proof fn law_folded_lines_are_made_whole(a: Seq<char>, b: Seq<char>)
    requires
        is_unbroken(a),
        is_unbroken(b),
    ensures
        unfolded(a + seq!['\r', '\n', ' '] + b) == a + seq![' '] + b,
        unfolded(a + seq!['\r', '\n', '\t'] + b) == a + seq![' '] + b,
        unfolded(a) == a,
{
    reveal_strlit("\r\n ");
    reveal_strlit("\r\n\t");
    reveal_strlit(" ");
    let p = "\r\n "@;
    let q = "\r\n\t"@;
    let gap = " "@;
    assert(p =~= seq!['\r', '\n', ' ']);
    assert(q =~= seq!['\r', '\n', '\t']);
    assert(gap =~= seq![' ']);
    let whole = a + gap + b;
    assert(is_unbroken(whole)) by {
        assert forall|k: int| 0 <= k < whole.len() implies #[trigger] whole[k] != '\r' by {
            if k < a.len() {
                assert(whole[k] == a[k]);
            } else if k > a.len() {
                assert(whole[k] == b[k - a.len() - 1]);
            }
        }
    }
    lemma_one_break(a, p, b, gap);
    lemma_no_break(whole, q, gap);
    let s = a + q + b;
    assert forall|i: int| 0 <= i < s.len() implies !(#[trigger] occurs_at(s, p, i)) by {
        if occurs_at(s, p, i) {
            let part = s.subrange(i, i + p.len());
            assert(part[0] == s[i] && part[2] == s[i + 2]);
            if i < a.len() {
                assert(s[i] == a[i]);
            } else if i == a.len() {
                assert(s[i + 2] == '\t');
            } else if i < a.len() + 3 {
                assert(s[i] == q[i - a.len()]);
            } else {
                assert(s[i] == b[i - a.len() - 3]);
            }
        }
    }
    law_replacing_replaces_each(s, p, gap, s.len() as int);
    lemma_one_break(a, q, b, gap);
    lemma_no_break(a, p, gap);
    lemma_no_break(a, q, gap);
}

/// There is a message to speak of just if the server names its UID and a sender.
pub proof fn law_messages_need_a_uid_and_a_sender(m: FetchedMessage)
    ensures
        m.is_complete() <==> match (m.uid, m.envelope) {
            (Some(_), Some(envelope)) => match envelope.from {
                Some(senders) => senders@.len() > 0,
                None => false,
            },
            _ => false,
        },
{
}

proof fn lemma_bracket(s: Seq<char>, from: int, open: int, close: int)
    requires
        0 <= from <= open,
        open + 1 < close < s.len(),
        s[open] == '<',
        s[close] == '>',
        forall|k: int| from <= k < open ==> #[trigger] s[k] != '<',
        forall|k: int| open < k < close ==> #[trigger] s[k] != '>',
    ensures
        bracketed_from(s, from) == Some(s.subrange(open + 1, close)),
    decreases open - from,
{
    if from == open {
        lemma_first_place(s, '>', open + 1, close);
    } else {
        assert(s[from] != '<');
        lemma_bracket(s, from + 1, open, close);
    }
}

/// The address of a sender is what stands in the first angle brackets behind the name, and
/// its domain what stands behind its `@`.
pub proof fn law_addresses_stand_in_brackets(
    name: Seq<char>,
    local: Seq<char>,
    domain: Seq<char>,
    rest: Seq<char>,
)
    requires
        forall|k: int| 0 <= k < name.len() ==> #[trigger] name[k] != '<',
        forall|k: int| 0 <= k < local.len() ==> #[trigger] local[k] != '>' && local[k] != '@',
        forall|k: int| 0 <= k < domain.len() ==> #[trigger] domain[k] != '>' && domain[k] != '@',
    ensures
        address_of(name + seq!['<'] + local + seq!['@'] + domain + seq!['>'] + rest) == local
            + seq!['@'] + domain,
        domain_of(local + seq!['@'] + domain) == domain,
{
    let address = local + seq!['@'] + domain;
    let s = name + seq!['<'] + local + seq!['@'] + domain + seq!['>'] + rest;
    let open = name.len() as int;
    let close = open + 1 + address.len();
    assert(s =~= name + seq!['<'] + address + seq!['>'] + rest);
    assert(s[open] == '<' && s[close] == '>');
    assert forall|k: int| 0 <= k < open implies #[trigger] s[k] != '<' by {
        assert(s[k] == name[k]);
    }
    assert forall|k: int| open < k < close implies #[trigger] s[k] != '>' by {
        assert(s[k] == address[k - open - 1]);
        if k - open - 1 < local.len() {
            assert(address[k - open - 1] == local[k - open - 1]);
        } else if k - open - 1 > local.len() {
            assert(address[k - open - 1] == domain[k - open - 1 - local.len() - 1]);
        }
    }
    lemma_bracket(s, 0, open, close);
    assert(s.subrange(open + 1, close) =~= address);
    let at = local.len() as int;
    assert forall|k: int| 0 <= k < at implies #[trigger] address[k] != '@' by {
        assert(address[k] == local[k]);
    }
    lemma_first_place(address, '@', 0, at);
    assert forall|k: int| at + 1 <= k < address.len() implies #[trigger] address[k] != '@' by {
        assert(address[k] == domain[k - at - 1]);
    }
    lemma_first_place(address, '@', at + 1, address.len() as int);
    assert(address.subrange(at + 1, address.len() as int) =~= domain);
}

proof fn lemma_no_bracket(s: Seq<char>, from: int)
    requires
        0 <= from,
        forall|k: int| from <= k < s.len() ==> #[trigger] s[k] != '<',
    ensures
        bracketed_from(s, from) is None,
    decreases s.len() - from,
{
    if from < s.len() {
        assert(s[from] != '<');
        lemma_no_bracket(s, from + 1);
    }
}

/// A sender without angle brackets is its own address; one without an `@` is its own domain.
pub proof fn law_bare_addresses_stand_for_themselves(s: Seq<char>)
    ensures
        (forall|k: int| 0 <= k < s.len() ==> #[trigger] s[k] != '<') ==> is_trimmed(
            address_of(s),
            s,
        ),
        (forall|k: int| 0 <= k < s.len() ==> #[trigger] s[k] != '@') ==> domain_of(s) == s,
{
    if forall|k: int| 0 <= k < s.len() ==> #[trigger] s[k] != '<' {
        lemma_no_bracket(s, 0);
        law_trimming_takes_white_space_away(s);
    }
    if forall|k: int| 0 <= k < s.len() ==> #[trigger] s[k] != '@' {
        lemma_first_place(s, '@', 0, s.len() as int);
    }
}

/// A message is from the first sender that the server names: by name and address, or by the
/// address alone. Its address and domain are those of that sender.
pub proof fn law_messages_are_from_their_sender(
    m: FetchedMessage,
    folder: Seq<char>,
    now: Timestamp,
)
    requires
        m.is_complete(),
        as_text((m.envelope->0).from->0@[0].mailbox) is Some,
        as_text((m.envelope->0).from->0@[0].host) is Some,
    ensures
        ({
            let first = (m.envelope->0).from->0@[0];
            let local = as_text(first.mailbox)->0;
            let host = as_text(first.host)->0;
            let e = m.email(folder, now);
            &&& as_text(first.name) is Some ==> e.from == as_text(first.name)->0 + seq![' ', '<']
                + local + seq!['@'] + host + seq!['>']
            &&& as_text(first.name) is None ==> e.from == local + seq!['@'] + host
            &&& e.from_email == address_of(e.from)
            &&& e.from_domain == domain_of(e.from_email)
        }),
{
    let first = (m.envelope->0).from->0@[0];
    let local = as_text(first.mailbox)->0;
    let host = as_text(first.host)->0;
    reveal_strlit(" <");
    reveal_strlit("@");
    reveal_strlit(">");
    assert(" <"@ =~= seq![' ', '<']);
    assert("@"@ =~= seq!['@']);
    assert(">"@ =~= seq!['>']);
}

// ---------------------------------------------------------------------------
// Threads

/// Whether a message names another one by its Message-ID, as the one that it answers or as
/// one before it.
pub open spec fn points_to(e: EmailV, key: Seq<char>) -> bool {
    e.in_reply_to == Some(key) || exists|r: int|
        0 <= r < e.references.len() && #[trigger] e.references[r] == key
}

proof fn lemma_points_to(e: EmailV, key: Seq<char>)
    ensures
        points_to(e, key) <==> crate::threading::refers_to(e, key),
{
    if e.references.contains(key) {
        let r = e.references.index_of(key);
        assert(e.references[r] == key);
    }
}

/// A reply comes into the thread of the message that it names, and two messages that name the
/// same one come into one thread.
pub proof fn law_replies_join_the_thread(emails: Seq<EmailV>, i: int, j: int, key: Seq<char>)
    requires
        0 <= i < emails.len(),
        0 <= j < emails.len(),
        points_to(emails[i], key),
        points_to(emails[j], key) || (emails[j].message_id == Some(key) && forall|k: int|
            0 <= k < emails.len() && k != j ==> (#[trigger] emails[k]).message_id != Some(key)),
    ensures
        with_thread_ids(emails)[i].thread_id == with_thread_ids(emails)[j].thread_id,
{
    lemma_points_to(emails[i], key);
    lemma_points_to(emails[j], key);
    assert(linked_by(emails, i, j, key));
    law_linked_messages_share_a_thread(emails, i, j, key);
    law_thread_ids_tell_threads_apart(emails, i, j);
}

/// Messages that nothing ties together come into different threads: where no message of a set
/// names one outside of it, is named by one, or names the same one, the threads of the set
/// are not those outside.
pub proof fn law_strangers_stay_apart(emails: Seq<EmailV>, inside: Set<int>, i: int, j: int)
    requires
        0 <= i < emails.len(),
        0 <= j < emails.len(),
        inside.contains(i),
        !inside.contains(j),
        forall|a: int, b: int, key: Seq<char>|
            0 <= a < emails.len() && 0 <= b < emails.len() && inside.contains(a)
                && !inside.contains(b) ==> !(#[trigger] points_to(emails[a], key)
                && #[trigger] points_to(emails[b], key)),
        forall|a: int, b: int, key: Seq<char>|
            0 <= a < emails.len() && 0 <= b < emails.len() && inside.contains(a)
                != inside.contains(b) ==> !(#[trigger] points_to(emails[a], key)
                && #[trigger] emails[b].message_id == Some(key)),
    ensures
        with_thread_ids(emails)[i].thread_id != with_thread_ids(emails)[j].thread_id,
{
    let label = |x: int|
        if inside.contains(x) {
            1int
        } else {
            0int
        };
    assert forall|a: int, b: int, key: Seq<char>| #[trigger]
        linked_by(emails, a, b, key) implies label(a) == label(b) by {
        lemma_points_to(emails[a], key);
        lemma_points_to(emails[b], key);
        if inside.contains(a) != inside.contains(b) {
            assert(points_to(emails[a], key));
            if crate::threading::refers_to(emails[b], key) {
                assert(points_to(emails[b], key));
            } else {
                assert(emails[b].message_id == Some(key));
            }
        }
    }
    assert(respects_links(emails, label));
    law_thread_ids_tell_threads_apart(emails, i, j);
    if same_thread(emails, i, j) {
        assert(label(i) == label(j));
    }
}

/// Naming threads changes nothing else of a message.
pub proof fn law_threads_change_the_thread_only(emails: Seq<EmailV>, i: int)
    requires
        0 <= i < emails.len(),
    ensures
        with_thread_ids(emails).len() == emails.len(),
        with_thread_ids(emails)[i] == (EmailV {
            thread_id: with_thread_ids(emails)[i].thread_id,
            ..emails[i]
        }),
{
}

/// A reply that was fetched comes into the thread of the message that it answers, whatever
/// other messages were fetched.
pub proof fn law_fetched_replies_join_the_thread(
    reply: FetchedMessage,
    parent: FetchedMessage,
    folders: (Seq<char>, Seq<char>),
    now: (Timestamp, Timestamp),
    lines: (int, int),
    emails: Seq<EmailV>,
    i: int,
    j: int,
)
    requires
        reply.is_complete(),
        parent.is_complete(),
        is_last_of(header_lines(reply), lines.0, "in-reply-to:"@),
        is_last_of(header_lines(parent), lines.1, "message-id:"@),
        trimmed(header_lines(reply)[lines.0].skip(12)) == trimmed(
            header_lines(parent)[lines.1].skip(11),
        ),
        0 <= i < emails.len(),
        0 <= j < emails.len(),
        emails[i] == reply.email(folders.0, now.0),
        emails[j] == parent.email(folders.1, now.1),
        forall|k: int|
            0 <= k < emails.len() && k != j ==> (#[trigger] emails[k]).message_id
                != emails[j].message_id,
    ensures
        with_thread_ids(emails)[i].thread_id == with_thread_ids(emails)[j].thread_id,
{
    lemma_header_lines(header_lines(reply), lines.0);
    lemma_header_lines(header_lines(parent), lines.1);
    let key = trimmed(header_lines(parent)[lines.1].skip(11));
    assert(emails[i].in_reply_to == Some(key));
    assert(emails[j].message_id == Some(key));
    law_replies_join_the_thread(emails, i, j, key);
}

// ---------------------------------------------------------------------------
// Messages of the Gmail API

/// Whether a header of a Gmail message has a name and a value.
pub open spec fn gives(h: HeaderV, name: Seq<char>, value: Seq<char>) -> bool {
    h.0 is Some && lowercase(h.0->0) == name && h.1 == Some(value)
}

proof fn lemma_last_value(headers: Seq<HeaderV>, name: Seq<char>, i: int, value: Seq<char>)
    requires
        0 <= i < headers.len(),
        gives(headers[i], name, value),
        forall|j: int, v: Seq<char>|
            i < j < headers.len() ==> !(#[trigger] gives(headers[j], name, v)),
    ensures
        last_value(headers, name) == value,
    decreases headers.len(),
{
    let n = headers.len() - 1;
    let t = headers.drop_last();
    if i < n {
        if let (Some(_), Some(v)) = headers[n] {
            assert(!gives(headers[n], name, v));
        }
        assert forall|j: int, v: Seq<char>| i < j < t.len() implies !(#[trigger] gives(
            t[j],
            name,
            v,
        )) by {
            assert(t[j] == headers[j]);
        }
        assert(t[i] == headers[i]);
        lemma_last_value(t, name, i, value);
    }
}

/// A message of the Gmail API keeps its identifiers, and has its sender and its subject from
/// the last headers of these names, letter case aside.
pub proof fn law_gmail_messages_keep_their_headers(
    m: GmailMessage,
    now: Timestamp,
    i: int,
    value: Seq<char>,
)
    requires
        m.is_complete(),
        0 <= i < m.headers->0@.len(),
    ensures
        ({
            let e = m.email(now);
            let headers = header_views(m.headers->0@);
            &&& e.id == m.id->0@
            &&& m.thread_id is Some ==> e.thread_id == (m.thread_id->0)@
            &&& m.snippet is Some ==> e.snippet == (m.snippet->0)@
            &&& gives(headers[i], "from"@, value) && (forall|j: int, v: Seq<char>|
                i < j < headers.len() ==> !(#[trigger] gives(headers[j], "from"@, v))) ==> e.from
                == value && e.from_email == address_of(value) && e.from_domain == domain_of(
                e.from_email,
            )
            &&& gives(headers[i], "subject"@, value) && (forall|j: int, v: Seq<char>|
                i < j < headers.len() ==> !(#[trigger] gives(headers[j], "subject"@, v)))
                ==> e.subject == value
            &&& gives(headers[i], "date"@, value) && (forall|j: int, v: Seq<char>|
                i < j < headers.len() ==> !(#[trigger] gives(headers[j], "date"@, v)))
                ==> e.date == (if email_date(value) is Some {
                email_date(value)->0
            } else {
                now
            })
        }),
{
    let headers = header_views(m.headers->0@);
    if gives(headers[i], "from"@, value) && (forall|j: int, v: Seq<char>|
        i < j < headers.len() ==> !(#[trigger] gives(headers[j], "from"@, v))) {
        lemma_last_value(headers, "from"@, i, value);
    }
    if gives(headers[i], "subject"@, value) && (forall|j: int, v: Seq<char>|
        i < j < headers.len() ==> !(#[trigger] gives(headers[j], "subject"@, v))) {
        lemma_last_value(headers, "subject"@, i, value);
    }
    if gives(headers[i], "date"@, value) && (forall|j: int, v: Seq<char>|
        i < j < headers.len() ==> !(#[trigger] gives(headers[j], "date"@, v))) {
        lemma_last_value(headers, "date"@, i, value);
    }
}

} // verus!
