//! The headers of a message.
use vstd::prelude::*;
use vstd::string::StringExecFns;

use crate::text::{
    contains, contains_text, decode_lossy, eq_ignore_ascii_case, from_chars, lines,
    lines_of, opt_text, replace, replaced, same_ignoring_ascii_case, texts, to_chars, trim, trimmed,
    utf8_lossy,
};

verus! {

broadcast use vstd::seq_lib::group_seq_properties;

// ---------------------------------------------------------------------------
// Encoded words

/// The value that `mailparse::parse_header` and `mailparse::MailHeader::get_value` give a
/// header line.
pub uninterp spec fn mime_value(header: Seq<char>) -> Option<Seq<char>>;

/// `mailparse::parse_header`, and `mailparse::MailHeader::get_value` of what it returns: the
/// value of a header line with its encoded words decoded, a function of the line.
#[verifier::external_body]
fn decode_mime(header: &str) -> (r: Option<String>)
    ensures
        opt_text(r) == mime_value(header@),
{
    mailparse::parse_header(header.as_bytes()).ok().map(|header| header.0.get_value())
}

/// The text of a header value, given what decoding it as MIME came to.
pub open spec fn header_text(value: Seq<char>, decoded: Option<Seq<char>>) -> Seq<char> {
    if contains_text(value, "=?"@) && decoded is Some {
        decoded->0
    } else {
        value
    }
}

/// Takes the decoded value where there are encoded words and they could be decoded.
pub fn choose_header_text(value: String, decoded: Option<String>) -> (r: String)
    ensures
        r@ == header_text(value@, opt_text(decoded)),
{
    match decoded {
        Some(decoded) => if contains(value.as_str(), "=?") {
            decoded
        } else {
            value
        },
        None => value,
    }
}

/// Decodes a header value that may hold encoded words.
pub fn decode_header_value(value: &[u8]) -> (r: String)
    ensures
        r@ == header_text(utf8_lossy(value@), mime_value("X: "@ + utf8_lossy(value@))),
{
    let value: String = decode_lossy(value);
    let decoded: Option<String> = if contains(value.as_str(), "=?") {
        decode_mime("X: ".to_owned().concat(value.as_str()).as_str())
    } else {
        None
    };
    choose_header_text(value, decoded)
}

// ---------------------------------------------------------------------------
// Lists of Message-IDs

/// A list of Message-IDs read so far.
#[verifier::ext_equal]
pub struct IdScan {
    pub ids: Seq<Seq<char>>,
    pub current: Seq<char>,
    pub in_angle: bool,
}

impl IdScan {
    /// Reading one more character. A `>` ends an id; white space outside of angle brackets
    /// is skipped.
    pub open spec fn read(self, c: char) -> IdScan {
        if c == '<' {
            IdScan { in_angle: true, current: self.current.push(c), ..self }
        } else if c == '>' {
            IdScan {
                ids: self.ids.push(trimmed(self.current.push(c))),
                current: Seq::empty(),
                in_angle: false,
            }
        } else if (c == ' ' || c == '\t') && !self.in_angle {
            self
        } else {
            IdScan { current: self.current.push(c), ..self }
        }
    }
}

/// What has been read at the end of a text.
pub open spec fn scanned(s: Seq<char>) -> IdScan
    decreases s.len(),
{
    if s.len() == 0 {
        IdScan { ids: Seq::empty(), current: Seq::empty(), in_angle: false }
    } else {
        scanned(s.drop_last()).read(s.last())
    }
}

/// The Message-IDs of a list. What is left at the end counts as one more.
pub open spec fn message_ids(s: Seq<char>) -> Seq<Seq<char>> {
    let end = scanned(s);
    if end.current.len() == 0 {
        end.ids
    } else {
        end.ids.push(trimmed(end.current))
    }
}

/// Reads a list of Message-IDs.
pub fn parse_message_id_list(s: &str) -> (r: Vec<String>)
    ensures
        texts(r@) == message_ids(s@),
{
    let v: Vec<char> = to_chars(s);
    let mut ids: Vec<String> = Vec::new();
    let mut current: String = String::new();
    let mut in_angle: bool = false;
    let mut i: usize = 0;
    let ghost start = scanned(s@.take(0));
    assert(texts(ids@) =~= start.ids);
    assert(current@ =~= start.current);
    while i < v.len()
        invariant
            i <= v@.len(),
            v@ == s@,
            scanned(s@.take(i as int)) == (IdScan {
                ids: texts(ids@),
                current: current@,
                in_angle,
            }),
        decreases v@.len() - i,
    {
        let c: char = v[i];
        proof {
            assert(s@.take(i + 1).drop_last() =~= s@.take(i as int));
            assert(s@.take(i + 1).last() == c);
        }
        let ghost ids0 = ids@;
        if c == '<' {
            in_angle = true;
            current.push(c);
        } else if c == '>' {
            current.push(c);
            in_angle = false;
            let id: String = trim(current.as_str());
            ids.push(id);
            current = String::new();
            assert(texts(ids@) =~= texts(ids0).push(id@));
            assert(current@ =~= Seq::<char>::empty());
        } else if (c == ' ' || c == '\t') && !in_angle {
        } else {
            current.push(c);
        }
        i += 1;
    }
    assert(s@.take(i as int) =~= s@);
    if !current.as_str().is_empty() {
        let ghost ids0 = ids@;
        let id: String = trim(current.as_str());
        ids.push(id);
        assert(texts(ids@) =~= texts(ids0).push(id@));
    }
    ids
}

/// Whether a text is a Message-ID in angle brackets.
pub open spec fn is_message_id(id: Seq<char>) -> bool {
    &&& id.len() >= 2
    &&& id.first() == '<'
    &&& id.last() == '>'
    &&& forall|k: int| 0 <= k < id.len() - 1 ==> #[trigger] id[k] != '>'
}

proof fn lemma_scan_id(before: Seq<char>, id: Seq<char>, n: int)
    requires
        is_message_id(id),
        1 <= n <= id.len(),
        scanned(before).current.len() == 0,
        !scanned(before).in_angle,
    ensures
        n < id.len() ==> scanned(before + id.take(n)) == (IdScan {
            ids: scanned(before).ids,
            current: id.take(n),
            in_angle: true,
        }),
        n == id.len() ==> scanned(before + id) == (IdScan {
            ids: scanned(before).ids.push(id),
            current: Seq::empty(),
            in_angle: false,
        }),
    decreases n,
{
    let s = before + id.take(n);
    assert(s.drop_last() =~= before + id.take(n - 1));
    assert(s.last() == id[n - 1]);
    if n == 1 {
        assert(before + id.take(0) =~= before);
        assert(scanned(before).current.push('<') =~= id.take(1));
    } else {
        lemma_scan_id(before, id, n - 1);
        assert(id.take(n - 1).push(id[n - 1]) =~= id.take(n));
        if n == id.len() {
            assert(id.take(n) =~= id);
            assert(trimmed(id) == id);
        }
    }
}

/// Whether a text is made of spaces and tabs.
pub open spec fn is_blank(s: Seq<char>) -> bool {
    forall|k: int| 0 <= k < s.len() ==> #[trigger] s[k] == ' ' || s[k] == '\t'
}

/// Texts one after the other, with a gap before, between and after them.
pub open spec fn spaced(ids: Seq<Seq<char>>, gaps: Seq<Seq<char>>) -> Seq<char>
    decreases ids.len(),
{
    if ids.len() == 0 {
        gaps[0]
    } else {
        spaced(ids.drop_last(), gaps.drop_last()) + ids.last() + gaps.last()
    }
}

proof fn lemma_scan_blank(before: Seq<char>, gap: Seq<char>)
    requires
        is_blank(gap),
        !scanned(before).in_angle,
    ensures
        scanned(before + gap) == scanned(before),
    decreases gap.len(),
{
    if gap.len() == 0 {
        assert(before + gap =~= before);
    } else {
        let short = gap.drop_last();
        assert forall|k: int| 0 <= k < short.len() implies #[trigger] short[k] == ' ' || short[k]
            == '\t' by {
            assert(short[k] == gap[k]);
        }
        lemma_scan_blank(before, short);
        assert((before + gap).drop_last() =~= before + short);
        assert((before + gap).last() == gap[gap.len() - 1]);
    }
}

proof fn lemma_scan_ids(ids: Seq<Seq<char>>, gaps: Seq<Seq<char>>)
    requires
        gaps.len() == ids.len() + 1,
        forall|k: int| 0 <= k < ids.len() ==> is_message_id(#[trigger] ids[k]),
        forall|k: int| 0 <= k < gaps.len() ==> is_blank(#[trigger] gaps[k]),
    ensures
        scanned(spaced(ids, gaps)) == (IdScan { ids, current: Seq::empty(), in_angle: false }),
    decreases ids.len(),
{
    assert(is_blank(gaps[gaps.len() - 1]));
    if ids.len() == 0 {
        let none = Seq::<char>::empty();
        lemma_scan_blank(none, gaps[0]);
        assert(none + gaps[0] =~= gaps[0]);
        assert(scanned(none).ids =~= ids);
    } else {
        let id = ids.last();
        let short = ids.drop_last();
        let fewer = gaps.drop_last();
        assert(ids[ids.len() - 1] == id);
        assert forall|k: int| 0 <= k < short.len() implies is_message_id(#[trigger] short[k]) by {
            assert(short[k] == ids[k]);
        }
        assert forall|k: int| 0 <= k < fewer.len() implies is_blank(#[trigger] fewer[k]) by {
            assert(fewer[k] == gaps[k]);
        }
        lemma_scan_ids(short, fewer);
        let before = spaced(short, fewer);
        lemma_scan_id(before, id, id.len() as int);
        lemma_scan_blank(before + id, gaps.last());
        assert(short.push(id) =~= ids);
    }
}

/// Message-IDs written one after the other are read back as they are, whatever spaces and
/// tabs stand before, between and after them.
pub proof fn law_message_ids_read_back(ids: Seq<Seq<char>>, gaps: Seq<Seq<char>>)
    requires
        gaps.len() == ids.len() + 1,
        forall|k: int| 0 <= k < ids.len() ==> is_message_id(#[trigger] ids[k]),
        forall|k: int| 0 <= k < gaps.len() ==> is_blank(#[trigger] gaps[k]),
    ensures
        message_ids(spaced(ids, gaps)) == ids,
{
    lemma_scan_ids(ids, gaps);
}

// ---------------------------------------------------------------------------
// Threading headers

/// Whether a line is a header of a name, the case of its letters aside.
pub open spec fn is_header(line: Seq<char>, name: Seq<char>) -> bool {
    line.len() >= name.len() && same_ignoring_ascii_case(line.take(name.len() as int), name)
}

/// The value of a header line.
pub open spec fn value_after(line: Seq<char>, name: Seq<char>) -> Seq<char> {
    trimmed(line.skip(name.len() as int))
}

/// The headers that tie a message to others.
#[verifier::ext_equal]
pub struct ThreadingV {
    pub message_id: Option<Seq<char>>,
    pub in_reply_to: Option<Seq<char>>,
    pub references: Seq<Seq<char>>,
}

impl ThreadingV {
    /// Reading one more line. A header that stands again replaces the one before.
    pub open spec fn read(self, line: Seq<char>) -> ThreadingV {
        if is_header(line, "message-id:"@) {
            ThreadingV { message_id: Some(value_after(line, "message-id:"@)), ..self }
        } else if is_header(line, "in-reply-to:"@) {
            ThreadingV { in_reply_to: Some(value_after(line, "in-reply-to:"@)), ..self }
        } else if is_header(line, "references:"@) {
            ThreadingV { references: message_ids(value_after(line, "references:"@)), ..self }
        } else {
            self
        }
    }
}

/// The threading headers among some lines.
pub open spec fn threading_of(lines: Seq<Seq<char>>) -> ThreadingV
    decreases lines.len(),
{
    if lines.len() == 0 {
        ThreadingV { message_id: None, in_reply_to: None, references: Seq::empty() }
    } else {
        threading_of(lines.drop_last()).read(lines.last())
    }
}

/// The text with its folded lines made whole.
pub open spec fn unfolded(s: Seq<char>) -> Seq<char> {
    replaced(replaced(s, "\r\n "@, " "@), "\r\n\t"@, " "@)
}

/// The value of a header line, if it is a header of a name.
fn read_header(line: &str, name: &str) -> (r: Option<String>)
    ensures
        opt_text(r) == if is_header(line@, name@) {
            Some(value_after(line@, name@))
        } else {
            None
        },
{
    let v: Vec<char> = to_chars(line);
    let n: usize = to_chars(name).len();
    if v.len() < n {
        return None;
    }
    let head: String = from_chars(&v, 0, n);
    assert(head@ =~= line@.take(n as int));
    if eq_ignore_ascii_case(head.as_str(), name) {
        let rest: String = from_chars(&v, n, v.len());
        assert(rest@ =~= line@.skip(n as int));
        Some(trim(rest.as_str()))
    } else {
        None
    }
}

/// Reads the Message-ID, the In-Reply-To and the References header out of a text.
pub fn threading_headers_of(text: &str) -> (r: (Option<String>, Option<String>, Vec<String>))
    ensures
        (ThreadingV {
            message_id: opt_text(r.0),
            in_reply_to: opt_text(r.1),
            references: texts(r.2@),
        }) == threading_of(lines_of(unfolded(text@))),
{
    proof {
        reveal_strlit("\r\n ");
        reveal_strlit("\r\n\t");
    }
    let once: String = replace(text, "\r\n ", " ");
    let unfolded: String = replace(once.as_str(), "\r\n\t", " ");
    let all: Vec<String> = lines(unfolded.as_str());
    let ghost t = texts(all@);
    let mut message_id: Option<String> = None;
    let mut in_reply_to: Option<String> = None;
    let mut references: Vec<String> = Vec::new();
    let mut i: usize = 0;
    assert(texts(references@) =~= threading_of(t.take(0)).references);
    while i < all.len()
        invariant
            i <= all@.len(),
            t == texts(all@),
            threading_of(t.take(i as int)) == (ThreadingV {
                message_id: opt_text(message_id),
                in_reply_to: opt_text(in_reply_to),
                references: texts(references@),
            }),
        decreases all@.len() - i,
    {
        proof {
            assert(t.take(i + 1).drop_last() =~= t.take(i as int));
            assert(t.take(i + 1).last() == all@[i as int]@);
        }
        let line: &str = all[i].as_str();
        match read_header(line, "message-id:") {
            Some(value) => {
                message_id = Some(value);
            },
            None => match read_header(line, "in-reply-to:") {
                Some(value) => {
                    in_reply_to = Some(value);
                },
                None => match read_header(line, "references:") {
                    Some(value) => {
                        references = parse_message_id_list(value.as_str());
                    },
                    None => {},
                },
            },
        }
        i += 1;
    }
    assert(t.take(i as int) =~= t);
    (message_id, in_reply_to, references)
}

/// Reads the Message-ID, the In-Reply-To and the References header.
pub fn parse_threading_headers(headers: &[u8]) -> (r: (
    Option<String>,
    Option<String>,
    Vec<String>,
))
    ensures
        (ThreadingV {
            message_id: opt_text(r.0),
            in_reply_to: opt_text(r.1),
            references: texts(r.2@),
        }) == threading_of(lines_of(unfolded(utf8_lossy(headers@)))),
{
    threading_headers_of(decode_lossy(headers).as_str())
}

} // verus!
