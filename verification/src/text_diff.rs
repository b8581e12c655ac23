//! Text ranges in UTF-16 units (the unit macOS accessibility uses) and the
//! single changed span between two versions of a text.
use vstd::prelude::*;

use crate::text::{chars_of, string_from_range, utf16_len, utf16_len_range, utf16_units};

verus! {

#[derive(Debug, Clone, Copy, PartialEq, Eq, Structural)]
pub struct TextRange {
    pub location: usize,
    pub length: usize,
}

/// `location + length`, saturating at `usize::MAX`.
pub open spec fn range_end(r: TextRange) -> int {
    if r.location + r.length > usize::MAX {
        usize::MAX as int
    } else {
        r.location + r.length
    }
}

/// Two ranges share at least one unit.
pub open spec fn ranges_overlap(a: TextRange, b: TextRange) -> bool {
    a.location < range_end(b) && b.location < range_end(a)
}

impl TextRange {
    /// The end of the range (saturating).
    pub fn end(self) -> (r: usize)
        ensures
            r == range_end(self),
    {
        self.location.saturating_add(self.length)
    }

    /// The ranges share at least one unit.
    pub fn overlaps(self, other: TextRange) -> (r: bool)
        ensures
            r == ranges_overlap(self, other),
    {
        self.location < other.end() && other.location < self.end()
    }
}

/// The one span in which two texts differ.
#[derive(Debug, Clone, PartialEq, Eq)]
pub struct ChangedSpan {
    pub old_range: TextRange,
    pub new_range: TextRange,
    pub from: String,
    pub to: String,
}

/// The length of the common prefix of `a` and `b`, counting from `i`.
pub open spec fn common_prefix_from(a: Seq<char>, b: Seq<char>, i: int) -> int
    decreases a.len() - i,
{
    if 0 <= i < a.len() && i < b.len() && a[i] == b[i] {
        common_prefix_from(a, b, i + 1)
    } else {
        i
    }
}

pub open spec fn common_prefix(a: Seq<char>, b: Seq<char>) -> int {
    common_prefix_from(a, b, 0)
}

/// The character `j` places before the end.
pub open spec fn from_end(s: Seq<char>, j: int) -> char {
    s[s.len() - 1 - j]
}

/// The length of the common suffix of `a` and `b` that does not reach into
/// their first `p` characters, counting from `k`.
pub open spec fn common_suffix_from(a: Seq<char>, b: Seq<char>, p: int, k: int) -> int
    decreases a.len() - k,
{
    if 0 <= k && 0 <= p && k + p < a.len() && k + p < b.len() && from_end(a, k) == from_end(b, k) {
        common_suffix_from(a, b, p, k + 1)
    } else {
        k
    }
}

pub open spec fn common_suffix(a: Seq<char>, b: Seq<char>) -> int {
    common_suffix_from(a, b, common_prefix(a, b), 0)
}

/// What `before` had in the changed span.
pub open spec fn span_from(a: Seq<char>, b: Seq<char>) -> Seq<char> {
    a.subrange(common_prefix(a, b), a.len() - common_suffix(a, b))
}

/// What `after` has in the changed span.
pub open spec fn span_to(a: Seq<char>, b: Seq<char>) -> Seq<char> {
    b.subrange(common_prefix(a, b), b.len() - common_suffix(a, b))
}

/// The span's start, in UTF-16 units.
pub open spec fn span_location(a: Seq<char>, b: Seq<char>) -> int {
    utf16_len(a.subrange(0, common_prefix(a, b))) as int
}

pub proof fn lemma_common_prefix(a: Seq<char>, b: Seq<char>, i: int)
    requires
        0 <= i <= a.len(),
        i <= b.len(),
        forall|k: int| 0 <= k < i ==> a[k] == b[k],
    ensures
        i <= common_prefix_from(a, b, i) <= a.len(),
        common_prefix_from(a, b, i) <= b.len(),
        forall|k: int| 0 <= k < common_prefix_from(a, b, i) ==> a[k] == b[k],
    decreases a.len() - i,
{
    if i < a.len() && i < b.len() && a[i] == b[i] {
        lemma_common_prefix(a, b, i + 1);
    }
}

pub proof fn lemma_common_suffix(a: Seq<char>, b: Seq<char>, p: int, k: int)
    requires
        0 <= p,
        0 <= k,
        k + p <= a.len(),
        k + p <= b.len(),
        forall|j: int| 0 <= j < k ==> #[trigger] from_end(a, j) == from_end(b, j),
    ensures
        k <= common_suffix_from(a, b, p, k),
        common_suffix_from(a, b, p, k) + p <= a.len(),
        common_suffix_from(a, b, p, k) + p <= b.len(),
        forall|j: int|
            0 <= j < common_suffix_from(a, b, p, k) ==> #[trigger] from_end(a, j) == from_end(b, j),
    decreases a.len() - k,
{
    if k + p < a.len() && k + p < b.len() && from_end(a, k) == from_end(b, k) {
        lemma_common_suffix(a, b, p, k + 1);
    }
}

/// The changed span is exactly what differs: both texts are the shared prefix,
/// then their own part of the span, then the shared suffix.
pub proof fn lemma_changed_span_reconstructs(a: Seq<char>, b: Seq<char>)
    ensures
        ({
            let p = common_prefix(a, b);
            let s = common_suffix(a, b);
            &&& 0 <= p && 0 <= s && p + s <= a.len() && p + s <= b.len()
            &&& a == a.subrange(0, p) + span_from(a, b) + a.subrange(a.len() - s, a.len() as int)
            &&& b == a.subrange(0, p) + span_to(a, b) + a.subrange(a.len() - s, a.len() as int)
        }),
{
    lemma_common_prefix(a, b, 0);
    let p = common_prefix(a, b);
    lemma_common_suffix(a, b, p, 0);
    let s = common_suffix(a, b);
    assert(a =~= a.subrange(0, p) + span_from(a, b) + a.subrange(a.len() - s, a.len() as int));
    assert(a.subrange(0, p) =~= b.subrange(0, p));
    assert(a.subrange(a.len() - s, a.len() as int) =~= b.subrange(b.len() - s, b.len() as int)) by {
        assert forall|j: int| 0 <= j < s implies #[trigger] a.subrange(a.len() - s, a.len() as int)[j]
            == b.subrange(b.len() - s, b.len() as int)[j] by {
            let m = s - 1 - j;
            assert(from_end(a, m) == from_end(b, m));
        }
    }
    assert(b =~= b.subrange(0, p) + span_to(a, b) + b.subrange(b.len() - s, b.len() as int));
}

/// The changed span between two texts that differ.
pub open spec fn span_matches(r: ChangedSpan, a: Seq<char>, b: Seq<char>) -> bool {
    &&& r.from@ == span_from(a, b)
    &&& r.to@ == span_to(a, b)
    &&& r.old_range.location == span_location(a, b)
    &&& r.new_range.location == span_location(a, b)
    &&& r.old_range.length == utf16_len(span_from(a, b))
    &&& r.new_range.length == utf16_len(span_to(a, b))
}

/// The span in which `after` differs from `before`, with its UTF-16 ranges in
/// both texts; `None` when the texts are equal.
pub fn changed_span(before: &str, after: &str) -> (r: Option<ChangedSpan>)
    requires
        before@.len() <= usize::MAX / 2,
        after@.len() <= usize::MAX / 2,
    ensures
        r is None <==> before@ == after@,
        r matches Some(span) ==> span_matches(span, before@, after@),
{
    let a = chars_of(before);
    let b = chars_of(after);
    if crate::text::chars_eq(&a, &b) {
        return None;
    }
    let mut prefix: usize = 0;
    while prefix < a.len() && prefix < b.len() && a[prefix] == b[prefix]
        invariant
            0 <= prefix <= a.len(),
            prefix <= b.len(),
            common_prefix_from(a@, b@, prefix as int) == common_prefix(a@, b@),
        decreases a.len() - prefix,
    {
        prefix = prefix + 1;
    }
    let mut suffix: usize = 0;
    while suffix + prefix < a.len() && suffix + prefix < b.len() && a[a.len() - 1 - suffix] == b[b.len()
        - 1 - suffix]
        invariant
            prefix == common_prefix(a@, b@),
            prefix <= a.len(),
            prefix <= b.len(),
            suffix + prefix <= a.len(),
            suffix + prefix <= b.len(),
            common_suffix_from(a@, b@, prefix as int, suffix as int) == common_suffix(a@, b@),
        decreases a.len() - suffix,
    {
        suffix = suffix + 1;
    }
    let before_end = a.len() - suffix;
    let after_end = b.len() - suffix;
    let from = string_from_range(&a, prefix, before_end);
    let to = string_from_range(&b, prefix, after_end);
    let prefix_utf16 = utf16_len_range(&a, 0, prefix);
    let from_len = utf16_len_range(&a, prefix, before_end);
    let to_len = utf16_len_range(&b, prefix, after_end);
    Some(
        ChangedSpan {
            old_range: TextRange { location: prefix_utf16, length: from_len },
            new_range: TextRange { location: prefix_utf16, length: to_len },
            from,
            to,
        },
    )
}

/// UTF-8 bytes of one character.
pub open spec fn utf8_units(c: char) -> nat {
    let u = c as u32;
    if u < 0x80 {
        1
    } else if u < 0x800 {
        2
    } else if u < 0x10000 {
        3
    } else {
        4
    }
}

/// UTF-8 length of a character sequence.
pub open spec fn utf8_len(s: Seq<char>) -> nat
    decreases s.len(),
{
    if s.len() == 0 {
        0
    } else {
        utf8_len(s.drop_last()) + utf8_units(s.last())
    }
}

/// The number of leading characters of `s` that end exactly at UTF-16 offset
/// `offset`, scanning from character `i` (already at offset `at`).
pub open spec fn char_index_at_utf16_from(s: Seq<char>, offset: int, i: int, at: int) -> Option<int>
    decreases s.len() - i,
{
    if at == offset {
        Some(i)
    } else if i < 0 || i >= s.len() || at > offset {
        None
    } else {
        char_index_at_utf16_from(s, offset, i + 1, at + utf16_units(s[i]))
    }
}

/// The character index at which the UTF-16 offset `offset` falls, if it falls
/// on a character boundary within the text.
pub open spec fn char_index_at_utf16(s: Seq<char>, offset: int) -> Option<int> {
    char_index_at_utf16_from(s, offset, 0, 0)
}

pub proof fn lemma_char_index_at_utf16(s: Seq<char>, offset: int, i: int, at: int)
    requires
        0 <= i <= s.len(),
        at == utf16_len(s.subrange(0, i)),
    ensures
        match char_index_at_utf16_from(s, offset, i, at) {
            Some(k) => i <= k <= s.len() && utf16_len(s.subrange(0, k)) == offset,
            None => true,
        },
    decreases s.len() - i,
{
    if at != offset && i < s.len() && at <= offset {
        assert(s.subrange(0, i + 1).drop_last() =~= s.subrange(0, i));
        lemma_char_index_at_utf16(s, offset, i + 1, at + utf16_units(s[i]));
    }
}

/// The character index for a UTF-16 offset, if it is a character boundary.
pub fn utf16_offset_to_char_index(v: &Vec<char>, offset: usize) -> (r: Option<usize>)
    ensures
        match r {
            Some(k) => char_index_at_utf16(v@, offset as int) == Some(k as int),
            None => char_index_at_utf16(v@, offset as int) is None,
        },
{
    let mut at: usize = 0;
    let mut i: usize = 0;
    while i < v.len()
        invariant
            0 <= i <= v.len(),
            at <= offset,
            char_index_at_utf16_from(v@, offset as int, i as int, at as int) == char_index_at_utf16(
                v@,
                offset as int,
            ),
        decreases v.len() - i,
    {
        if at == offset {
            return Some(i);
        }
        let u = crate::text::char_utf16_units(v[i]);
        if u > offset - at {
            proof {
                assert(char_index_at_utf16_from(v@, offset as int, i + 1, at + u) is None) by {
                    reveal_with_fuel(char_index_at_utf16_from, 2);
                }
            }
            return None;
        }
        at = at + u;
        i = i + 1;
    }
    if at == offset {
        Some(i)
    } else {
        None
    }
}

/// The byte index for a UTF-16 offset, if it is a character boundary.
pub fn utf16_offset_to_byte_index(value: &str, offset: usize) -> (r: Option<usize>)
    requires
        value@.len() <= usize::MAX / 4,
    ensures
        match char_index_at_utf16(value@, offset as int) {
            Some(k) => r == Some(utf8_len(value@.subrange(0, k)) as usize),
            None => r is None,
        },
{
    let v = chars_of(value);
    match utf16_offset_to_char_index(&v, offset) {
        None => None,
        Some(k) => {
            proof {
                lemma_char_index_at_utf16(v@, offset as int, 0, 0);
            }
            let mut bytes: usize = 0;
            let mut i: usize = 0;
            while i < k
                invariant
                    0 <= i <= k <= v.len(),
                    v.len() <= usize::MAX / 4,
                    bytes == utf8_len(v@.subrange(0, i as int)),
                    bytes <= 4 * i,
                decreases k - i,
            {
                let u = v[i] as u32;
                let n: usize = if u < 0x80 {
                    1
                } else if u < 0x800 {
                    2
                } else if u < 0x10000 {
                    3
                } else {
                    4
                };
                assert(v@.subrange(0, i + 1).drop_last() =~= v@.subrange(0, i as int));
                bytes = bytes + n;
                i = i + 1;
            }
            Some(bytes)
        },
    }
}

/// The text of a UTF-16 range, when both ends fall on character boundaries in order.
pub open spec fn range_text(s: Seq<char>, r: TextRange) -> Option<Seq<char>> {
    match (char_index_at_utf16(s, r.location as int), char_index_at_utf16(s, range_end(r))) {
        (Some(i), Some(j)) => if i <= j {
            Some(s.subrange(i, j))
        } else {
            None
        },
        _ => None,
    }
}

/// The text that a UTF-16 range covers.
pub fn utf16_range_text(value: &str, range: TextRange) -> (r: Option<String>)
    ensures
        match range_text(value@, range) {
            Some(t) => r matches Some(x) && x@ == t,
            None => r is None,
        },
{
    let v = chars_of(value);
    let start = match utf16_offset_to_char_index(&v, range.location) {
        Some(k) => k,
        None => {
            return None;
        },
    };
    let end = match utf16_offset_to_char_index(&v, range.end()) {
        Some(k) => k,
        None => {
            return None;
        },
    };
    proof {
        lemma_char_index_at_utf16(v@, range.location as int, 0, 0);
        lemma_char_index_at_utf16(v@, range_end(range), 0, 0);
        assert(v@.subrange(0, 0) =~= Seq::<char>::empty());
    }
    if start > end {
        return None;
    }
    Some(string_from_range(&v, start, end))
}

} // verus!
