//! The replies of a server that the parser of replies can take.
use vstd::prelude::*;

verus! {

/// How deep the brackets of a body structure may nest.
pub const MAX_NESTING: u32 = 32;

// ---------------------------------------------------------------------------
// Searching

/// The uppercase of an ASCII letter.
pub open spec fn upper_byte(b: u8) -> u8 {
    if 97 <= b <= 122 {
        (b - 32) as u8
    } else {
        b
    }
}

/// Whether `p` stands in `s` from position `i` on, the case of letters in `s` aside.
pub open spec fn stands_at(s: Seq<u8>, p: Seq<u8>, i: int) -> bool {
    &&& 0 <= i && i + p.len() <= s.len()
    &&& forall|k: int| 0 <= k < p.len() ==> upper_byte(#[trigger] s[i + k]) == p[k]
}

/// The uppercase of an ASCII letter.
fn to_upper(b: u8) -> (r: u8)
    ensures
        r == upper_byte(b),
{
    if 97 <= b && b <= 122 {
        b - 32
    } else {
        b
    }
}

/// Whether `pattern` stands in `bytes` from position `i` on, the case of letters aside.
fn find_at(bytes: &[u8], pattern: &[u8], i: usize) -> (r: bool)
    requires
        i <= bytes@.len(),
    ensures
        r == stands_at(bytes@, pattern@, i as int),
{
    let mut k: usize = 0;
    while k < pattern.len() && k < bytes.len() - i && to_upper(bytes[i + k]) == pattern[k]
        invariant
            i <= bytes@.len(),
            k <= pattern@.len(),
            k <= bytes@.len() - i,
            forall|j: int| 0 <= j < k ==> upper_byte(#[trigger] bytes@[i + j]) == pattern@[j],
        decreases pattern@.len() - k,
    {
        k += 1;
    }
    if k < pattern.len() {
        assert(!stands_at(bytes@, pattern@, i as int)) by {
            if stands_at(bytes@, pattern@, i as int) {
                assert(upper_byte(bytes@[i + k]) == pattern@[k as int]);
            }
        }
    }
    k == pattern.len()
}

/// What stands in the end of some bytes stands in the bytes.
proof fn lemma_stands_in_suffix(s: Seq<u8>, p: Seq<u8>, at: int, i: int)
    requires
        0 <= at <= s.len(),
        stands_at(s.skip(at), p, i),
    ensures
        stands_at(s, p, at + i),
{
    assert forall|k: int| 0 <= k < p.len() implies upper_byte(#[trigger] s[at + i + k])
        == p[k] by {
        assert(s.skip(at)[i + k] == s[at + i + k]);
    }
}

// ---------------------------------------------------------------------------
// What the parser does not survive

/// The bytes of `INTERNALDATE NIL`.
pub open spec fn null_date() -> Seq<u8> {
    seq![
        73u8, 78u8, 84u8, 69u8, 82u8, 78u8, 65u8, 76u8, 68u8, 65u8, 84u8, 69u8, 32u8, 78u8, 73u8,
        76u8,
    ]
}

/// The bytes of `* METADATA `.
pub open spec fn metadata_mark() -> Seq<u8> {
    seq![42u8, 32u8, 77u8, 69u8, 84u8, 65u8, 68u8, 65u8, 84u8, 65u8, 32u8]
}

/// The bytes of `BODYSTRUCTURE `.
pub open spec fn structure_mark() -> Seq<u8> {
    seq![
        66u8, 79u8, 68u8, 89u8, 83u8, 84u8, 82u8, 85u8, 67u8, 84u8, 85u8, 82u8, 69u8, 32u8,
    ]
}

/// Whether no message of a reply is said to have no internal date.
pub open spec fn has_dates(bytes: Seq<u8>) -> bool {
    forall|i: int| !(#[trigger] stands_at(bytes, null_date(), i))
}

/// Whether all bytes from `i` on are ASCII.
pub open spec fn is_ascii_from(bytes: Seq<u8>, i: int) -> bool {
    forall|j: int| i <= j < bytes.len() ==> #[trigger] bytes[j] < 128
}

/// Whether nothing but ASCII follows where annotations of a mailbox begin.
pub open spec fn has_ascii_metadata(bytes: Seq<u8>) -> bool {
    forall|i: int| #[trigger]
        stands_at(bytes, metadata_mark(), i) ==> is_ascii_from(bytes, i)
}

/// The number of bytes of a quoted string behind its opening quote, up to its closing quote
/// or the end of the bytes.
pub open spec fn quoted_len(bytes: Seq<u8>) -> int
    decreases bytes.len(),
{
    if bytes.len() == 0 {
        0
    } else if bytes[0] == 34 {
        1
    } else if bytes[0] == 92 && bytes.len() > 1 {
        2 + quoted_len(bytes.skip(2))
    } else {
        1 + quoted_len(bytes.skip(1))
    }
}

/// The number of digits that bytes begin with.
pub open spec fn digits_len(bytes: Seq<u8>) -> int
    decreases bytes.len(),
{
    if bytes.len() > 0 && 48 <= bytes[0] <= 57 {
        1 + digits_len(bytes.skip(1))
    } else {
        0
    }
}

/// The number that digits write.
pub open spec fn digits_value(digits: Seq<u8>) -> int
    decreases digits.len(),
{
    if digits.len() == 0 {
        0
    } else {
        10 * digits_value(digits.drop_last()) + (digits.last() - 48)
    }
}

/// The number of bytes of a literal that bytes begin with: its length in braces, a line
/// break, and that many bytes. `None` where they begin with no whole literal.
pub open spec fn literal_len(bytes: Seq<u8>) -> Option<int> {
    let digits = digits_len(bytes.skip(1));
    let size = digits_value(bytes.subrange(1, 1 + digits));
    if digits > 0 && size <= u32::MAX && digits + 4 + size <= bytes.len() && bytes[digits + 1]
        == 125 && bytes[digits + 2] == 13 && bytes[digits + 3] == 10 {
        Some(digits + 4 + size)
    } else {
        None
    }
}

/// Whether brackets at the beginning of some bytes nest deeper than [`MAX_NESTING`], with
/// `depth` of them open before. Brackets in quoted strings and in literals are text. What
/// follows the closing of the outermost bracket does not count.
pub open spec fn nests_deep(bytes: Seq<u8>, depth: int) -> bool
    decreases bytes.len(),
{
    if bytes.len() == 0 {
        false
    } else if bytes[0] == 40 {
        depth >= MAX_NESTING || nests_deep(bytes.skip(1), depth + 1)
    } else if depth == 0 || (bytes[0] == 41 && depth == 1) {
        false
    } else if bytes[0] == 41 {
        nests_deep(bytes.skip(1), depth - 1)
    } else if bytes[0] == 34 {
        let next = 1 + quoted_len(bytes.skip(1));
        0 < next <= bytes.len() && nests_deep(bytes.skip(next), depth)
    } else if bytes[0] == 123 {
        match literal_len(bytes) {
            Some(next) => 0 < next <= bytes.len() && nests_deep(bytes.skip(next), depth),
            None => false,
        }
    } else {
        nests_deep(bytes.skip(1), depth)
    }
}

/// Whether no body structure of a reply nests deeper than [`MAX_NESTING`].
pub open spec fn has_flat_structures(bytes: Seq<u8>) -> bool {
    forall|i: int| #[trigger]
        stands_at(bytes, structure_mark(), i) ==> !nests_deep(
            bytes.skip(i + structure_mark().len()),
            0,
        )
}

/// The bytes of `* `, which a reply without a tag begins with.
pub open spec fn untagged_mark() -> Seq<u8> {
    seq![42u8, 32u8]
}

/// Whether a reply without a tag is harmless: no internal date is missing, the annotations of
/// mailboxes are ASCII, and body structures do not nest too deep.
pub open spec fn is_harmless(bytes: Seq<u8>) -> bool {
    has_dates(bytes) && has_ascii_metadata(bytes) && has_flat_structures(bytes)
}

/// Whether the parser of replies survives some bytes, wherever it begins: they are harmless
/// from each place on where a reply without a tag can begin. Replies with a tag are always
/// survived.
pub open spec fn can_be_parsed(bytes: Seq<u8>) -> bool {
    forall|i: int| #[trigger]
        stands_at(bytes, untagged_mark(), i) ==> is_harmless(bytes.skip(i))
}

/// The end of bytes that can be parsed can be parsed.
pub proof fn law_suffix_can_be_parsed(bytes: Seq<u8>, at: int)
    requires
        can_be_parsed(bytes),
        0 <= at <= bytes.len(),
    ensures
        can_be_parsed(bytes.skip(at)),
{
    let rest = bytes.skip(at);
    assert forall|i: int| #[trigger] stands_at(rest, untagged_mark(), i) implies is_harmless(
        rest.skip(i),
    ) by {
        lemma_stands_in_suffix(bytes, untagged_mark(), at, i);
        assert(rest.skip(i) =~= bytes.skip(at + i));
    }
}

proof fn lemma_suffix_is_harmless(bytes: Seq<u8>, at: int)
    requires
        is_harmless(bytes),
        0 <= at <= bytes.len(),
    ensures
        is_harmless(bytes.skip(at)),
{
    let rest = bytes.skip(at);
    assert forall|i: int| !(#[trigger] stands_at(rest, null_date(), i)) by {
        if stands_at(rest, null_date(), i) {
            lemma_stands_in_suffix(bytes, null_date(), at, i);
        }
    }
    assert forall|i: int| #[trigger] stands_at(rest, metadata_mark(), i) implies is_ascii_from(
        rest,
        i,
    ) by {
        lemma_stands_in_suffix(bytes, metadata_mark(), at, i);
        assert forall|j: int| i <= j < rest.len() implies #[trigger] rest[j] < 128 by {
            assert(rest[j] == bytes[at + j]);
        }
    }
    assert forall|i: int| #[trigger] stands_at(rest, structure_mark(), i) implies !nests_deep(
        rest.skip(i + structure_mark().len()),
        0,
    ) by {
        lemma_stands_in_suffix(bytes, structure_mark(), at, i);
        assert(rest.skip(i + structure_mark().len()) =~= bytes.skip(
            at + i + structure_mark().len(),
        ));
    }
}

// ---------------------------------------------------------------------------
// Testing

/// Whether all bytes from `i` on are ASCII.
fn check_ascii(bytes: &[u8], i: usize) -> (r: bool)
    ensures
        r == is_ascii_from(bytes@, i as int),
{
    let mut j: usize = i;
    while j < bytes.len()
        invariant
            i <= j,
            forall|k: int| i <= k < j && k < bytes@.len() ==> #[trigger] bytes@[k] < 128,
        decreases bytes@.len() - j,
    {
        if bytes[j] >= 128 {
            return false;
        }
        j += 1;
    }
    true
}

/// Where a quoted string ends whose opening quote stands before `from`.
fn quoted_end(bytes: &[u8], from: usize) -> (r: usize)
    requires
        from <= bytes@.len(),
    ensures
        r == from + quoted_len(bytes@.skip(from as int)),
        from <= r <= bytes@.len(),
{
    let mut i: usize = from;
    while i < bytes.len()
        invariant
            from <= i <= bytes@.len(),
            from + quoted_len(bytes@.skip(from as int)) == i + quoted_len(bytes@.skip(i as int)),
        decreases bytes@.len() - i,
    {
        let ghost rest = bytes@.skip(i as int);
        assert(rest[0] == bytes@[i as int]);
        if bytes[i] == 34 {
            return i + 1;
        }
        if bytes[i] == 92 && bytes.len() - i > 1 {
            assert(rest.skip(2) =~= bytes@.skip(i + 2));
            i += 2;
        } else {
            assert(rest.skip(1) =~= bytes@.skip(i + 1));
            i += 1;
        }
    }
    i
}

/// Where a literal ends that begins at `at`.
fn literal_end(bytes: &[u8], at: usize) -> (r: Option<usize>)
    requires
        at < bytes@.len(),
    ensures
        match r {
            Some(end) => literal_len(bytes@.skip(at as int)) == Some(end - at) && at < end
                <= bytes@.len(),
            None => literal_len(bytes@.skip(at as int)) is None,
        },
{
    let ghost rest = bytes@.skip(at as int);
    let len: usize = bytes.len();
    let from: usize = at + 1;
    let mut i: usize = from;
    let mut size: u64 = 0;
    assert(rest.skip(1) =~= bytes@.skip(from as int));
    assert(bytes@.subrange(from as int, i as int) =~= Seq::<u8>::empty());
    while i < len && 48 <= bytes[i] && bytes[i] <= 57
        invariant
            len == bytes@.len(),
            from <= i <= len,
            digits_len(bytes@.skip(from as int)) == i - from + digits_len(bytes@.skip(i as int)),
            size <= u32::MAX + 1,
            size <= u32::MAX ==> size == digits_value(bytes@.subrange(from as int, i as int)),
            size > u32::MAX ==> digits_value(bytes@.subrange(from as int, i as int)) > u32::MAX,
        decreases bytes@.len() - i,
    {
        proof {
            let longer = bytes@.subrange(from as int, i + 1);
            assert(longer.drop_last() =~= bytes@.subrange(from as int, i as int));
            assert(longer.last() == bytes@[i as int]);
            assert(bytes@.skip(i as int)[0] == bytes@[i as int]);
            assert(bytes@.skip(i as int).skip(1) =~= bytes@.skip(i + 1));
        }
        size = 10 * size + (bytes[i] - 48) as u64;
        if size > 4294967295 {
            size = 4294967296;
        }
        i += 1;
    }
    proof {
        if i < bytes@.len() {
            assert(bytes@.skip(i as int)[0] == bytes@[i as int]);
        }
        assert(digits_len(rest.skip(1)) == i - from);
        assert(rest.subrange(1, 1 + (i - from)) =~= bytes@.subrange(from as int, i as int));
    }
    if i == from || size > 4294967295 || len - i < 3 {
        return None;
    }
    assert(rest[i - at] == bytes@[i as int]);
    assert(rest[i - at + 1] == bytes@[i + 1]);
    assert(rest[i - at + 2] == bytes@[i + 2]);
    if bytes[i] != 125 || bytes[i + 1] != 13 || bytes[i + 2] != 10 {
        return None;
    }
    if size > (len - i - 3) as u64 {
        return None;
    }
    Some(i + 3 + size as usize)
}

/// Whether brackets that begin at `from` nest deeper than [`MAX_NESTING`].
fn check_depth(bytes: &[u8], from: usize) -> (r: bool)
    requires
        from <= bytes@.len(),
    ensures
        r == nests_deep(bytes@.skip(from as int), 0),
{
    let mut at: usize = from;
    let mut depth: u32 = 0;
    while at < bytes.len()
        invariant
            from <= at <= bytes@.len(),
            depth <= MAX_NESTING,
            nests_deep(bytes@.skip(from as int), 0) == nests_deep(
                bytes@.skip(at as int),
                depth as int,
            ),
        decreases bytes@.len() - at,
    {
        let ghost rest = bytes@.skip(at as int);
        let byte: u8 = bytes[at];
        assert(rest[0] == byte);
        assert(rest.skip(1) =~= bytes@.skip(at + 1));
        if byte == 40 {
            if depth >= MAX_NESTING {
                return true;
            }
            depth += 1;
            at += 1;
        } else if depth == 0 || (byte == 41 && depth == 1) {
            return false;
        } else if byte == 41 {
            depth -= 1;
            at += 1;
        } else if byte == 34 {
            let end: usize = quoted_end(bytes, at + 1);
            assert(rest.skip(end - at) =~= bytes@.skip(end as int));
            at = end;
        } else if byte == 123 {
            match literal_end(bytes, at) {
                Some(end) => {
                    assert(rest.skip(end - at) =~= bytes@.skip(end as int));
                    at = end;
                },
                None => {
                    return false;
                },
            }
        } else {
            at += 1;
        }
    }
    false
}

/// Whether a reply without a tag is harmless.
fn check_harmless(bytes: &[u8]) -> (r: bool)
    ensures
        r == is_harmless(bytes@),
{
    let date: [u8; 16] = [73, 78, 84, 69, 82, 78, 65, 76, 68, 65, 84, 69, 32, 78, 73, 76];
    let metadata: [u8; 11] = [42, 32, 77, 69, 84, 65, 68, 65, 84, 65, 32];
    let structure: [u8; 14] = [66, 79, 68, 89, 83, 84, 82, 85, 67, 84, 85, 82, 69, 32];
    assert(date@ =~= null_date());
    assert(metadata@ =~= metadata_mark());
    assert(structure@ =~= structure_mark());
    let mut i: usize = 0;
    while i < bytes.len()
        invariant
            i <= bytes@.len(),
            date@ == null_date(),
            metadata@ == metadata_mark(),
            structure@ == structure_mark(),
            forall|j: int| 0 <= j < i ==> !(#[trigger] stands_at(bytes@, null_date(), j)),
            forall|j: int|
                0 <= j < i && #[trigger] stands_at(bytes@, metadata_mark(), j) ==> is_ascii_from(
                    bytes@,
                    j,
                ),
            forall|j: int|
                0 <= j < i && #[trigger] stands_at(bytes@, structure_mark(), j) ==> !nests_deep(
                    bytes@.skip(j + structure_mark().len()),
                    0,
                ),
        decreases bytes@.len() - i,
    {
        if find_at(bytes, date.as_slice(), i) {
            return false;
        }
        if find_at(bytes, metadata.as_slice(), i) && !check_ascii(bytes, i) {
            return false;
        }
        if find_at(bytes, structure.as_slice(), i) && check_depth(bytes, i + 14) {
            return false;
        }
        i += 1;
    }
    true
}

/// Whether the parser of replies survives some bytes.
pub fn check_reply(bytes: &[u8]) -> (r: bool)
    ensures
        r == can_be_parsed(bytes@),
{
    let untagged: [u8; 2] = [42, 32];
    assert(untagged@ =~= untagged_mark());
    let mut i: usize = 0;
    while i < bytes.len()
        invariant
            i <= bytes@.len(),
            untagged@ == untagged_mark(),
            forall|j: int| 0 <= j < i ==> !(#[trigger] stands_at(bytes@, untagged_mark(), j)),
        decreases bytes@.len() - i,
    {
        if find_at(bytes, untagged.as_slice(), i) {
            let rest: &[u8] = vstd::slice::slice_subrange(bytes, i, bytes.len());
            let r: bool = check_harmless(rest);
            proof {
                assert(rest@ =~= bytes@.skip(i as int));
                if r {
                    assert forall|j: int| #[trigger]
                        stands_at(bytes@, untagged_mark(), j) implies is_harmless(
                        bytes@.skip(j),
                    ) by {
                        lemma_suffix_is_harmless(rest@, j - i);
                        assert(rest@.skip(j - i) =~= bytes@.skip(j));
                    }
                }
            }
            return r;
        }
        i += 1;
    }
    true
}

} // verus!
