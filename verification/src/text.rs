//! Text as sequences of characters.
//!
//! A `str` and a `String` are viewed as `Seq<char>`; the functions here search,
//! trim, split and build text against definitions over that view.
use vstd::prelude::*;
use vstd::string::StringExecFns;
use vstd::utf8::{decode_utf8, is_ascii_chars, valid_utf8};

verus! {

broadcast use vstd::seq_lib::group_seq_properties;

/// `String::push` appends one character.
pub assume_specification[ String::push ](s: &mut String, c: char)
    ensures
        final(s)@ == old(s)@.push(c),
;

/// The lowercase form that `str::to_lowercase` gives a text.
pub uninterp spec fn lowercase(s: Seq<char>) -> Seq<char>;

/// `str::to_lowercase`: the result is a function of the text, and on ASCII text it
/// only replaces the letters `A` to `Z`. Nothing else is claimed of its Unicode tables.
#[verifier::external_body]
pub(crate) fn to_lower(s: &str) -> (r: String)
    ensures
        r@ == lowercase(s@),
        is_ascii_chars(s@) ==> r@ == ascii_lower(s@),
{
    s.to_lowercase()
}

/// The text that `String::from_utf8_lossy` makes of some bytes.
pub uninterp spec fn utf8_lossy(bytes: Seq<u8>) -> Seq<char>;

/// `String::from_utf8_lossy`: the result is a function of the bytes, and bytes that
/// are UTF-8 are decoded as such. What replaces malformed bytes is left unsaid.
#[verifier::external_body]
pub(crate) fn decode_lossy(bytes: &[u8]) -> (r: String)
    ensures
        r@ == utf8_lossy(bytes@),
        valid_utf8(bytes@) ==> r@ == decode_utf8(bytes@),
{
    String::from_utf8_lossy(bytes).into_owned()
}

// ---------------------------------------------------------------------------
// Characters and conversions

/// The characters with the Unicode property `White_Space`.
pub open spec fn is_white_space(c: char) -> bool {
    let u = c as u32;
    ||| 0x09 <= u <= 0x0D
    ||| u == 0x20
    ||| u == 0x85
    ||| u == 0xA0
    ||| u == 0x1680
    ||| 0x2000 <= u <= 0x200A
    ||| u == 0x2028
    ||| u == 0x2029
    ||| u == 0x202F
    ||| u == 0x205F
    ||| u == 0x3000
}

/// The ASCII lowercase of one character.
pub open spec fn ascii_lower_char(c: char) -> char {
    if 'A' <= c <= 'Z' {
        ((c as u8) + 32) as char
    } else {
        c
    }
}

/// The text with `A` to `Z` replaced by `a` to `z`.
pub open spec fn ascii_lower(s: Seq<char>) -> Seq<char> {
    s.map_values(|c: char| ascii_lower_char(c))
}

/// Equality up to the case of ASCII letters.
pub open spec fn same_ignoring_ascii_case(a: Seq<char>, b: Seq<char>) -> bool {
    ascii_lower(a) == ascii_lower(b)
}

/// The view of an optional text.
pub open spec fn opt_text(o: Option<String>) -> Option<Seq<char>> {
    match o {
        Some(s) => Some(s@),
        None => None,
    }
}

/// The view of a list of texts.
pub open spec fn texts(v: Seq<String>) -> Seq<Seq<char>> {
    v.map_values(|s: String| s@)
}

pub fn white_space(c: char) -> (r: bool)
    ensures
        r == is_white_space(c),
{
    let u: u32 = c as u32;
    (0x09 <= u && u <= 0x0D) || u == 0x20 || u == 0x85 || u == 0xA0 || u == 0x1680 || (0x2000 <= u
        && u <= 0x200A) || u == 0x2028 || u == 0x2029 || u == 0x202F || u == 0x205F || u == 0x3000
}

pub fn lower_char(c: char) -> (r: char)
    ensures
        r == ascii_lower_char(c),
{
    if 'A' <= c && c <= 'Z' {
        ((c as u8) + 32) as char
    } else {
        c
    }
}

/// The characters of a text.
pub fn to_chars(s: &str) -> (v: Vec<char>)
    ensures
        v@ == s@,
{
    let mut v: Vec<char> = Vec::new();
    for c in it: s.chars()
        invariant
            v@ == it.seq().take(it.index() as int),
    {
        v.push(c);
    }
    v
}

/// The text of the characters from `lo` up to `hi`.
pub fn from_chars(v: &Vec<char>, lo: usize, hi: usize) -> (s: String)
    requires
        lo <= hi <= v@.len(),
    ensures
        s@ == v@.subrange(lo as int, hi as int),
{
    let mut s = String::new();
    let mut i: usize = lo;
    while i < hi
        invariant
            lo <= i <= hi <= v@.len(),
            s@ == v@.subrange(lo as int, i as int),
        decreases hi - i,
    {
        s.push(v[i]);
        i += 1;
    }
    s
}

/// Whether two texts hold the same characters.
pub fn str_eq(a: &str, b: &str) -> (r: bool)
    ensures
        r == (a@ == b@),
{
    let x: String = a.to_owned();
    let y: String = b.to_owned();
    x == y
}

/// Whether two texts are the same up to the case of ASCII letters.
pub fn eq_ignore_ascii_case(a: &str, b: &str) -> (r: bool)
    ensures
        r == same_ignoring_ascii_case(a@, b@),
{
    let x: Vec<char> = to_chars(a);
    let y: Vec<char> = to_chars(b);
    if x.len() != y.len() {
        assert(ascii_lower(a@).len() != ascii_lower(b@).len());
        return false;
    }
    let mut i: usize = 0;
    while i < x.len()
        invariant
            i <= x@.len() == y@.len(),
            x@ == a@,
            y@ == b@,
            forall|k: int| 0 <= k < i ==> ascii_lower_char(x@[k]) == ascii_lower_char(y@[k]),
        decreases x@.len() - i,
    {
        if lower_char(x[i]) != lower_char(y[i]) {
            assert(ascii_lower(a@)[i as int] != ascii_lower(b@)[i as int]);
            return false;
        }
        i += 1;
    }
    assert(ascii_lower(a@) =~= ascii_lower(b@));
    true
}

// ---------------------------------------------------------------------------
// Trimming

/// The text without its leading and trailing white space.
pub open spec fn trimmed(s: Seq<char>) -> Seq<char>
    decreases s.len(),
{
    if s.len() == 0 {
        s
    } else if is_white_space(s.first()) {
        trimmed(s.drop_first())
    } else if is_white_space(s.last()) {
        trimmed(s.drop_last())
    } else {
        s
    }
}

/// The bounds of the trimmed text inside the text.
pub fn trim_bounds(v: &Vec<char>, from: usize, to: usize) -> (r: (usize, usize))
    requires
        from <= to <= v@.len(),
    ensures
        from <= r.0 <= r.1 <= to,
        v@.subrange(r.0 as int, r.1 as int) == trimmed(v@.subrange(from as int, to as int)),
{
    let mut lo: usize = from;
    while lo < to && white_space(v[lo])
        invariant
            from <= lo <= to <= v@.len(),
            trimmed(v@.subrange(from as int, to as int)) == trimmed(
                v@.subrange(lo as int, to as int),
            ),
        decreases to - lo,
    {
        assert(v@.subrange(lo as int, to as int).drop_first() =~= v@.subrange(
            lo + 1,
            to as int,
        ));
        lo += 1;
    }
    let mut hi: usize = to;
    while lo < hi && white_space(v[hi - 1])
        invariant
            from <= lo <= hi <= to <= v@.len(),
            lo < hi ==> !is_white_space(v@[lo as int]),
            trimmed(v@.subrange(from as int, to as int)) == trimmed(
                v@.subrange(lo as int, hi as int),
            ),
        decreases hi - lo,
    {
        assert(v@.subrange(lo as int, hi as int).drop_last() =~= v@.subrange(
            lo as int,
            hi - 1,
        ));
        hi -= 1;
    }
    (lo, hi)
}

/// The text without its leading and trailing white space.
pub fn trim(s: &str) -> (r: String)
    ensures
        r@ == trimmed(s@),
{
    let v: Vec<char> = to_chars(s);
    let (lo, hi) = trim_bounds(&v, 0, v.len());
    proof {
        assert(v@.subrange(0, v@.len() as int) =~= s@);
    }
    from_chars(&v, lo, hi)
}

// ---------------------------------------------------------------------------
// Searching

/// Whether `p` stands in `s` from position `i` on.
pub open spec fn occurs_at(s: Seq<char>, p: Seq<char>, i: int) -> bool {
    0 <= i && i + p.len() <= s.len() && s.subrange(i, i + p.len()) == p
}

/// Whether `p` stands somewhere in `s`.
pub open spec fn contains_text(s: Seq<char>, p: Seq<char>) -> bool {
    exists|i: int| occurs_at(s, p, i)
}

/// Whether `s` begins with `p`.
pub open spec fn begins_with(s: Seq<char>, p: Seq<char>) -> bool {
    occurs_at(s, p, 0)
}

pub fn matches_at(s: &Vec<char>, p: &Vec<char>, i: usize) -> (r: bool)
    ensures
        r == occurs_at(s@, p@, i as int),
{
    if p.len() > s.len() || i > s.len() - p.len() {
        return false;
    }
    let mut k: usize = 0;
    while k < p.len()
        invariant
            k <= p@.len(),
            i + p@.len() <= s@.len() <= usize::MAX,
            forall|j: int| 0 <= j < k ==> s@[i + j] == p@[j],
        decreases p@.len() - k,
    {
        if s[i + k] != p[k] {
            assert(s@.subrange(i as int, i + p@.len())[k as int] != p@[k as int]);
            return false;
        }
        k += 1;
    }
    assert(s@.subrange(i as int, i + p@.len()) =~= p@);
    true
}

/// Whether `p` stands somewhere in `s`.
pub fn contains(s: &str, p: &str) -> (r: bool)
    ensures
        r == contains_text(s@, p@),
{
    let sv: Vec<char> = to_chars(s);
    let pv: Vec<char> = to_chars(p);
    let mut i: usize = 0;
    while i <= sv.len()
        invariant
            sv@ == s@,
            pv@ == p@,
            i <= sv@.len() + 1,
            forall|j: int| 0 <= j < i ==> !occurs_at(s@, p@, j),
        decreases sv@.len() + 1 - i,
    {
        if matches_at(&sv, &pv, i) {
            return true;
        }
        if i == sv.len() {
            return false;
        }
        i += 1;
    }
    false
}

/// Whether `s` begins with `p`.
pub fn starts_with(s: &str, p: &str) -> (r: bool)
    ensures
        r == begins_with(s@, p@),
{
    let sv: Vec<char> = to_chars(s);
    let pv: Vec<char> = to_chars(p);
    matches_at(&sv, &pv, 0)
}

/// The position of the first `c` at or after `from`, or the length if there is none.
pub open spec fn position_from(s: Seq<char>, c: char, from: int) -> int
    decreases s.len() - from,
{
    if from >= s.len() {
        s.len() as int
    } else if s[from] == c {
        from
    } else {
        position_from(s, c, from + 1)
    }
}

pub fn find_char(v: &Vec<char>, c: char, from: usize) -> (r: usize)
    requires
        from <= v@.len(),
    ensures
        from <= r <= v@.len(),
        r == position_from(v@, c, from as int),
        forall|k: int| from <= k < r ==> v@[k] != c,
        r < v@.len() ==> v@[r as int] == c,
{
    let mut i: usize = from;
    while i < v.len() && v[i] != c
        invariant
            from <= i <= v@.len(),
            position_from(v@, c, from as int) == position_from(v@, c, i as int),
            forall|k: int| from <= k < i ==> v@[k] != c,
        decreases v@.len() - i,
    {
        i += 1;
    }
    i
}

// ---------------------------------------------------------------------------
// Replacing, splitting and joining

/// The text with every `p` replaced by `r`, from the left and without overlap.
pub open spec fn replaced(s: Seq<char>, p: Seq<char>, r: Seq<char>) -> Seq<char>
    decreases s.len(),
{
    if s.len() == 0 || p.len() == 0 {
        s
    } else if begins_with(s, p) {
        r + replaced(s.skip(p.len() as int), p, r)
    } else {
        seq![s[0]] + replaced(s.skip(1), p, r)
    }
}

/// The text with every `p` replaced by `r`.
pub fn replace(s: &str, p: &str, r: &str) -> (out: String)
    requires
        p@.len() > 0,
    ensures
        out@ == replaced(s@, p@, r@),
{
    let sv: Vec<char> = to_chars(s);
    let pv: Vec<char> = to_chars(p);
    let mut out: String = String::new();
    let mut i: usize = 0;
    proof {
        assert(s@.skip(0) =~= s@);
        assert(out@ + replaced(s@, p@, r@) =~= replaced(s@, p@, r@));
    }
    while i < sv.len()
        invariant
            sv@ == s@,
            pv@ == p@,
            p@.len() > 0,
            i <= sv@.len(),
            out@ + replaced(s@.skip(i as int), p@, r@) == replaced(s@, p@, r@),
        decreases sv@.len() - i,
    {
        let ghost rest = s@.skip(i as int);
        let ghost out0 = out@;
        if matches_at(&sv, &pv, i) {
            proof {
                assert(rest.subrange(0, p@.len() as int) =~= s@.subrange(i as int, i + p@.len()));
                assert(begins_with(rest, p@));
                assert(rest.skip(p@.len() as int) =~= s@.skip(i + p@.len()));
            }
            out.append(r);
            assert(out0 + (r@ + replaced(s@.skip(i + p@.len()), p@, r@)) =~= out@ + replaced(
                s@.skip(i + p@.len()),
                p@,
                r@,
            ));
            i += pv.len();
        } else {
            proof {
                if begins_with(rest, p@) {
                    assert(rest.subrange(0, p@.len() as int) =~= s@.subrange(
                        i as int,
                        i + p@.len(),
                    ));
                }
                assert(rest.skip(1) =~= s@.skip(i + 1));
            }
            out.push(sv[i]);
            assert(out0 + (seq![rest[0]] + replaced(s@.skip(i + 1), p@, r@)) =~= out@ + replaced(
                s@.skip(i + 1),
                p@,
                r@,
            ));
            i += 1;
        }
    }
    assert(out@ + replaced(s@.skip(i as int), p@, r@) =~= out@);
    out
}

/// A line without the carriage return before its line feed.
pub open spec fn without_return(line: Seq<char>) -> Seq<char> {
    if line.len() > 0 && line.last() == '\r' {
        line.drop_last()
    } else {
        line
    }
}

/// The lines of a text. A line ends at a line feed, with or without a carriage return before
/// it; the last one may end with the text.
pub open spec fn lines_of(s: Seq<char>) -> Seq<Seq<char>>
    decreases s.len(),
    via lines_of_decreases
{
    let end = position_from(s, '\n', 0);
    if s.len() == 0 {
        Seq::empty()
    } else if end >= s.len() {
        seq![s]
    } else {
        seq![without_return(s.take(end))] + lines_of(s.skip(end + 1))
    }
}

#[via_fn]
proof fn lines_of_decreases(s: Seq<char>) {
    lemma_position_from(s, '\n', 0);
}

proof fn lemma_position_from(s: Seq<char>, c: char, from: int)
    requires
        0 <= from <= s.len(),
    ensures
        from <= position_from(s, c, from) <= s.len(),
    decreases s.len() - from,
{
    if from < s.len() && s[from] != c {
        lemma_position_from(s, c, from + 1);
    }
}

proof fn lemma_position_skip(s: Seq<char>, c: char, i: int, from: int)
    requires
        0 <= i <= from <= s.len(),
    ensures
        position_from(s.skip(i), c, from - i) == position_from(s, c, from) - i,
    decreases s.len() - from,
{
    if from < s.len() && s[from] != c {
        lemma_position_skip(s, c, i, from + 1);
    }
}

/// The lines of a text.
pub fn lines(s: &str) -> (out: Vec<String>)
    ensures
        texts(out@) == lines_of(s@),
{
    let v: Vec<char> = to_chars(s);
    let mut out: Vec<String> = Vec::new();
    let mut i: usize = 0;
    proof {
        assert(s@.skip(0) =~= s@);
        assert(texts(out@) + lines_of(s@) =~= lines_of(s@));
    }
    while i < v.len()
        invariant
            v@ == s@,
            i <= v@.len(),
            texts(out@) + lines_of(s@.skip(i as int)) == lines_of(s@),
        decreases v@.len() - i,
    {
        let ghost rest = s@.skip(i as int);
        let ghost out0 = out@;
        let end: usize = find_char(&v, '\n', i);
        proof {
            lemma_position_skip(s@, '\n', i as int, i as int);
        }
        if end >= v.len() {
            out.push(from_chars(&v, i, v.len()));
            proof {
                assert(texts(out@) =~= texts(out0).push(rest));
                assert(texts(out@) =~= texts(out0) + seq![rest]);
                assert(lines_of(s@.skip(end as int)) =~= Seq::<Seq<char>>::empty());
            }
            i = v.len();
        } else {
            let stop: usize = if end > i && v[end - 1] == '\r' {
                end - 1
            } else {
                end
            };
            out.push(from_chars(&v, i, stop));
            proof {
                let line = without_return(rest.take(end - i));
                assert(rest.take(end - i) =~= v@.subrange(i as int, end as int));
                assert(line =~= v@.subrange(i as int, stop as int));
                assert(texts(out@) =~= texts(out0).push(line));
                assert(rest.skip(end - i + 1) =~= s@.skip(end + 1));
                assert(texts(out0) + (seq![line] + lines_of(s@.skip(end + 1))) =~= texts(out@)
                    + lines_of(s@.skip(end + 1)));
            }
            i = end + 1;
        }
    }
    assert(texts(out@) + lines_of(s@.skip(i as int)) =~= texts(out@));
    out
}

/// Texts joined by a separator.
pub open spec fn joined(s: Seq<Seq<char>>, sep: Seq<char>) -> Seq<char>
    decreases s.len(),
{
    if s.len() == 0 {
        Seq::empty()
    } else if s.len() == 1 {
        s[0]
    } else {
        joined(s.drop_last(), sep) + sep + s.last()
    }
}

/// Texts joined by a separator.
pub fn join(v: &[String], sep: &str) -> (out: String)
    ensures
        out@ == joined(texts(v@), sep@),
{
    let ghost t = texts(v@);
    let mut out: String = String::new();
    let mut i: usize = 0;
    assert(out@ =~= joined(t.take(0), sep@));
    while i < v.len()
        invariant
            i <= v@.len(),
            t == texts(v@),
            out@ == joined(t.take(i as int), sep@),
        decreases v@.len() - i,
    {
        proof {
            assert(t.take(i + 1).drop_last() =~= t.take(i as int));
            assert(t.take(i + 1).last() == v@[i as int]@);
        }
        let ghost out0 = out@;
        if i > 0 {
            out.append(sep);
        }
        out.append(v[i].as_str());
        if i == 0 {
            assert(out@ =~= t.take(1)[0]);
        }
        i += 1;
    }
    assert(t.take(i as int) =~= t);
    out
}

/// At most the first `n` characters of a text.
pub open spec fn at_most(s: Seq<char>, n: nat) -> Seq<char> {
    if s.len() <= n {
        s
    } else {
        s.take(n as int)
    }
}

/// At most the first `n` characters of a text.
pub fn first_chars(s: &str, n: usize) -> (out: String)
    ensures
        out@ == at_most(s@, n as nat),
{
    let v: Vec<char> = to_chars(s);
    let end: usize = if v.len() <= n {
        v.len()
    } else {
        n
    };
    assert(v@.subrange(0, end as int) =~= at_most(s@, n as nat));
    from_chars(&v, 0, end)
}

// ---------------------------------------------------------------------------
// Numbers

/// The digit character of a number below ten.
pub open spec fn digit(n: nat) -> char {
    ((n + 48) as u8) as char
}

/// The decimal notation of a number.
pub open spec fn decimal(n: nat) -> Seq<char>
    decreases n,
{
    if n < 10 {
        seq![digit(n)]
    } else {
        decimal(n / 10).push(digit(n % 10))
    }
}

/// Appends the decimal notation of a number to a text.
pub fn push_decimal(s: &mut String, n: u64)
    ensures
        final(s)@ == old(s)@ + decimal(n as nat),
    decreases n,
{
    let d: char = (((n % 10) as u8) + 48) as char;
    if n >= 10 {
        push_decimal(s, n / 10);
    }
    s.push(d);
    assert(d == digit((n % 10) as nat));
}

/// The decimal notation of a number.
pub fn decimal_text(n: u64) -> (s: String)
    ensures
        s@ == decimal(n as nat),
{
    let mut s = String::new();
    push_decimal(&mut s, n);
    s
}

/// Whether a character is an ASCII digit.
pub open spec fn is_digit(c: char) -> bool {
    '0' <= c <= '9'
}

/// The number that a row of digits denotes.
pub open spec fn digits_value(s: Seq<char>) -> nat
    decreases s.len(),
{
    if s.len() == 0 {
        0
    } else {
        digits_value(s.drop_last()) * 10 + ((s.last() as u32) - 48) as nat
    }
}

/// Whether a text is a non-empty row of digits.
pub open spec fn all_digits(s: Seq<char>) -> bool {
    s.len() > 0 && forall|i: int| 0 <= i < s.len() ==> is_digit(#[trigger] s[i])
}

/// The number that a text denotes as an unsigned one: an optional `+` and digits, not
/// above `max`.
pub open spec fn unsigned_value(s: Seq<char>, max: nat) -> Option<nat> {
    let body = if s.len() > 0 && s[0] == '+' {
        s.drop_first()
    } else {
        s
    };
    if all_digits(body) && digits_value(body) <= max {
        Some(digits_value(body))
    } else {
        None
    }
}

/// The number that a text denotes as an `i64`: an optional sign and digits, in range.
pub open spec fn signed_value(s: Seq<char>) -> Option<int> {
    let negative = s.len() > 0 && s[0] == '-';
    let body = if s.len() > 0 && (s[0] == '+' || s[0] == '-') {
        s.drop_first()
    } else {
        s
    };
    let value = if negative {
        -digits_value(body)
    } else {
        digits_value(body) as int
    };
    if all_digits(body) && i64::MIN <= value <= i64::MAX {
        Some(value)
    } else {
        None
    }
}

proof fn lemma_digits_value_grows(s: Seq<char>, n: int)
    requires
        all_digits(s),
        0 <= n <= s.len(),
    ensures
        digits_value(s.take(n)) <= digits_value(s),
    decreases s.len() - n,
{
    if n < s.len() {
        lemma_digits_value_grows(s, n + 1);
        assert(s.take(n + 1).drop_last() =~= s.take(n));
        assert(s.take(n + 1).last() == s[n]);
        assert(is_digit(s[n]));
    } else {
        assert(s.take(n) =~= s);
    }
}

/// The number that the characters from `from` on denote, if they are digits and the
/// number fits.
fn parse_digits(v: &Vec<char>, from: usize) -> (r: Option<u64>)
    requires
        from <= v@.len(),
    ensures
        r == ({
            let body = v@.subrange(from as int, v@.len() as int);
            if all_digits(body) && digits_value(body) <= u64::MAX {
                Some(digits_value(body) as u64)
            } else {
                None
            }
        }),
{
    let ghost body = v@.subrange(from as int, v@.len() as int);
    if from == v.len() {
        return None;
    }
    let mut value: u64 = 0;
    let mut i: usize = from;
    while i < v.len()
        invariant
            from <= i <= v@.len(),
            body == v@.subrange(from as int, v@.len() as int),
            value == digits_value(body.take(i - from)),
            forall|k: int| from <= k < i ==> is_digit(v@[k]),
        decreases v@.len() - i,
    {
        let c: char = v[i];
        assert(body[i - from] == c);
        if !('0' <= c && c <= '9') {
            assert(!is_digit(body[i - from]));
            return None;
        }
        let d: u64 = ((c as u32) - 48) as u64;
        proof {
            assert(body.take(i - from + 1).drop_last() =~= body.take(i - from));
            assert(body.take(i - from + 1).last() == c);
        }
        let wide: u128 = (value as u128) * 10 + (d as u128);
        if wide > u64::MAX as u128 {
            proof {
                if all_digits(body) {
                    lemma_digits_value_grows(body, i - from + 1);
                }
            }
            return None;
        }
        value = wide as u64;
        i += 1;
    }
    proof {
        assert(body.take(i - from) =~= body);
        assert forall|k: int| 0 <= k < body.len() implies is_digit(#[trigger] body[k]) by {
            assert(body[k] == v@[from + k]);
        }
    }
    Some(value)
}

/// Reads an unsigned number.
pub fn parse_unsigned(s: &str) -> (r: Option<u64>)
    ensures
        r == (match unsigned_value(s@, u64::MAX as nat) {
            Some(n) => Some(n as u64),
            None => None,
        }),
{
    let v: Vec<char> = to_chars(s);
    if v.len() > 0 && v[0] == '+' {
        assert(s@.drop_first() =~= v@.subrange(1, v@.len() as int));
        parse_digits(&v, 1)
    } else {
        assert(s@ =~= v@.subrange(0, v@.len() as int));
        parse_digits(&v, 0)
    }
}

/// Reads a signed number.
pub fn parse_signed(s: &str) -> (r: Option<i64>)
    ensures
        r == (match signed_value(s@) {
            Some(n) => Some(n as i64),
            None => None,
        }),
{
    let v: Vec<char> = to_chars(s);
    let negative: bool = v.len() > 0 && v[0] == '-';
    let from: usize = if v.len() > 0 && (v[0] == '+' || v[0] == '-') {
        1
    } else {
        0
    };
    let magnitude: Option<u64> = parse_digits(&v, from);
    proof {
        if from == 1 {
            assert(s@.drop_first() =~= v@.subrange(1, v@.len() as int));
        } else {
            assert(s@ =~= v@.subrange(0, v@.len() as int));
        }
    }
    match magnitude {
        None => None,
        Some(m) => {
            if negative {
                if m <= 0x8000_0000_0000_0000 {
                    Some((-(m as i128)) as i64)
                } else {
                    None
                }
            } else if m <= 0x7FFF_FFFF_FFFF_FFFF {
                Some(m as i64)
            } else {
                None
            }
        },
    }
}

/// Reading back the decimal notation of a number gives the number.
pub proof fn law_decimal_reads_back(n: nat)
    ensures
        all_digits(decimal(n)),
        digits_value(decimal(n)) == n,
    decreases n,
{
    let s = decimal(n);
    if n < 10 {
        assert(s.drop_last() =~= Seq::<char>::empty());
        assert(digits_value(s.drop_last()) == 0);
    } else {
        law_decimal_reads_back(n / 10);
        assert(s.drop_last() =~= decimal(n / 10));
        assert forall|i: int| 0 <= i < s.len() implies is_digit(#[trigger] s[i]) by {
            if i < s.len() - 1 {
                assert(s[i] == decimal(n / 10)[i]);
            }
        }
    }
}

} // verus!
