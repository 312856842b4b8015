//! Verified text primitives shared by the expression parser, the
//! suppression-comment grammar and the location resolver.
//!
//! All scanning is done over character sequences (`Seq<char>`), so every
//! helper's contract is stated against the view of its `&str` arguments.

use vstd::prelude::*;
use vstd::string::*;

verus! {

/// Whitespace, as the trimming helpers understand it: the six ASCII
/// whitespace characters.
pub open spec fn is_space_char(c: char) -> bool {
    c == ' ' || c == '\t' || c == '\n' || c == '\r' || c == '\u{b}' || c == '\u{c}'
}

pub fn is_space(c: char) -> (r: bool)
    ensures
        r == is_space_char(c),
{
    c == ' ' || c == '\t' || c == '\n' || c == '\r' || c == '\u{b}' || c == '\u{c}'
}

/// True when `p` occurs in `s` starting at position `i`.
pub open spec fn matches_at(s: Seq<char>, p: Seq<char>, i: int) -> bool {
    &&& 0 <= i
    &&& i + p.len() <= s.len()
    &&& s.subrange(i, i + p.len() as int) == p
}

/// Whether `p` occurs in `s` at `i`, by character comparison.
pub fn starts_at(s: &str, p: &str, i: usize) -> (r: bool)
    requires
        i <= s@.len(),
    ensures
        r == matches_at(s@, p@, i as int),
{
    let n = s.unicode_len();
    let m = p.unicode_len();
    if m > n - i {
        assert(!matches_at(s@, p@, i as int));
        return false;
    }
    let mut j: usize = 0;
    while j < m
        invariant
            j <= m,
            i + m <= n,
            n == s@.len(),
            m == p@.len(),
            forall|k: int| 0 <= k < j ==> s@[i + k] == p@[k],
        decreases m - j,
    {
        if s.get_char(i + j) != p.get_char(j) {
            assert(s@.subrange(i as int, i + m as int)[j as int] != p@[j as int]);
            return false;
        }
        j += 1;
    }
    assert(s@.subrange(i as int, i + m as int) =~= p@);
    true
}

/// Character equality of two string slices.
pub fn str_eq(a: &str, b: &str) -> (r: bool)
    ensures
        r == (a@ == b@),
{
    let n = a.unicode_len();
    if n != b.unicode_len() {
        assert(a@ != b@) by {
            if a@ == b@ {
                assert(a@.len() == b@.len());
            }
        }
        return false;
    }
    let mut j: usize = 0;
    while j < n
        invariant
            j <= n,
            n == a@.len(),
            n == b@.len(),
            forall|k: int| 0 <= k < j ==> a@[k] == b@[k],
        decreases n - j,
    {
        if a.get_char(j) != b.get_char(j) {
            return false;
        }
        j += 1;
    }
    assert(a@ =~= b@);
    true
}

/// First position at or after `from` where `p` occurs in `s`.
pub open spec fn first_match(s: Seq<char>, p: Seq<char>, from: int) -> Option<int>
    recommends
        0 <= from,
        1 <= p.len(),
    decreases s.len() - from,
    when 0 <= from <= s.len() && 1 <= p.len()
{
    if from + p.len() > s.len() {
        None
    } else if matches_at(s, p, from) {
        Some(from)
    } else {
        first_match(s, p, from + 1)
    }
}

pub proof fn lemma_first_match(s: Seq<char>, p: Seq<char>, from: int)
    requires
        0 <= from <= s.len(),
        1 <= p.len(),
    ensures
        match first_match(s, p, from) {
            Some(i) => from <= i && matches_at(s, p, i) && (forall|j: int|
                from <= j < i ==> !matches_at(s, p, j)),
            None => forall|j: int| from <= j ==> !matches_at(s, p, j),
        },
    decreases s.len() - from,
{
    if from + p.len() > s.len() {
        assert forall|j: int| from <= j implies !matches_at(s, p, j) by {}
    } else if matches_at(s, p, from) {
    } else {
        lemma_first_match(s, p, from + 1);
    }
}

/// Scan for the first occurrence of `p` in `s` at or after `from`.
pub fn find_from(s: &str, p: &str, from: usize) -> (r: Option<usize>)
    requires
        from <= s@.len(),
        1 <= p@.len(),
    ensures
        match r {
            Some(i) => first_match(s@, p@, from as int) == Some(i as int) && i + p@.len()
                <= s@.len(),
            None => first_match(s@, p@, from as int) is None,
        },
{
    let n = s.unicode_len();
    let m = p.unicode_len();
    if m > n {
        return None;
    }
    let mut i: usize = from;
    while i <= n - m
        invariant
            from <= i <= n,
            m <= n,
            m == p@.len(),
            n == s@.len(),
            1 <= m,
            first_match(s@, p@, from as int) == first_match(s@, p@, i as int),
        decreases n - i,
    {
        if starts_at(s, p, i) {
            return Some(i);
        }
        i += 1;
    }
    None
}

/// Scan for the first occurrence of the character `c` at or after `from`,
/// strictly before `until`.
pub fn find_char_before(s: &str, c: char, from: usize, until: usize) -> (r: Option<usize>)
    requires
        from <= until <= s@.len(),
    ensures
        match r {
            Some(i) => from <= i < until && s@[i as int] == c && (forall|j: int|
                from <= j < i ==> s@[j] != c),
            None => forall|j: int| from <= j < until ==> s@[j] != c,
        },
{
    let mut i: usize = from;
    while i < until
        invariant
            from <= i <= until <= s@.len(),
            forall|j: int| from <= j < i ==> s@[j] != c,
        decreases until - i,
    {
        if s.get_char(i) == c {
            return Some(i);
        }
        i += 1;
    }
    None
}

/// First position at or after `from` where `c` occurs in `s`.
pub open spec fn first_char_match(s: Seq<char>, c: char, from: int) -> Option<int>
    decreases s.len() - from,
    when 0 <= from <= s.len()
{
    if from >= s.len() {
        None
    } else if s[from] == c {
        Some(from)
    } else {
        first_char_match(s, c, from + 1)
    }
}

pub proof fn lemma_first_char_match(s: Seq<char>, c: char, from: int)
    requires
        0 <= from <= s.len(),
    ensures
        match first_char_match(s, c, from) {
            Some(k) => from <= k < s.len() && s[k] == c && (forall|j: int|
                from <= j < k ==> s[j] != c),
            None => forall|j: int| from <= j < s.len() ==> s[j] != c,
        },
    decreases s.len() - from,
{
    if from >= s.len() {
    } else if s[from] == c {
    } else {
        lemma_first_char_match(s, c, from + 1);
    }
}

/// The first occurrence, pinned by a witness: `i` is an occurrence of `c`
/// with none before it.
pub proof fn lemma_first_char_match_witness(s: Seq<char>, c: char, from: int, i: int)
    requires
        0 <= from <= i < s.len(),
        s[i] == c,
        forall|j: int| from <= j < i ==> s[j] != c,
    ensures
        first_char_match(s, c, from) == Some(i),
{
    lemma_first_char_match(s, c, from);
    match first_char_match(s, c, from) {
        Some(k) => {
            if k < i {
                assert(s[k] != c);
            }
            if k > i {
                assert(s[i] != c);
            }
        },
        None => {
            assert(s[i] != c);
        },
    }
}

/// No occurrence at or after `from` means the search is empty.
pub proof fn lemma_first_char_match_absent(s: Seq<char>, c: char, from: int)
    requires
        0 <= from <= s.len(),
        forall|j: int| from <= j < s.len() ==> s[j] != c,
    ensures
        first_char_match(s, c, from) is None,
{
    lemma_first_char_match(s, c, from);
    match first_char_match(s, c, from) {
        Some(k) => {
            assert(s[k] != c);
        },
        None => {},
    }
}

/// Last position where `c` occurs in `s`.
pub open spec fn last_char_match(s: Seq<char>, c: char) -> Option<int>
    decreases s.len(),
{
    if s.len() == 0 {
        None
    } else if s[s.len() - 1] == c {
        Some(s.len() - 1)
    } else {
        last_char_match(s.drop_last(), c)
    }
}

pub proof fn lemma_last_char_match(s: Seq<char>, c: char)
    ensures
        match last_char_match(s, c) {
            Some(k) => 0 <= k < s.len() && s[k] == c && (forall|j: int|
                k < j < s.len() ==> s[j] != c),
            None => forall|j: int| 0 <= j < s.len() ==> s[j] != c,
        },
    decreases s.len(),
{
    if s.len() == 0 {
    } else if s[s.len() - 1] == c {
    } else {
        lemma_last_char_match(s.drop_last(), c);
        match last_char_match(s.drop_last(), c) {
            Some(k) => {
                assert forall|j: int| k < j < s.len() implies s[j] != c by {
                    if j < s.len() - 1 {
                        assert(s.drop_last()[j] == s[j]);
                    }
                }
            },
            None => {
                assert forall|j: int| 0 <= j < s.len() implies s[j] != c by {
                    if j < s.len() - 1 {
                        assert(s.drop_last()[j] == s[j]);
                    }
                }
            },
        }
    }
}

/// Scan backwards for the last occurrence of `c` in `s`.
#[verifier::loop_isolation(false)]
pub fn rfind_char(s: &str, c: char) -> (r: Option<usize>)
    ensures
        match r {
            Some(i) => last_char_match(s@, c) == Some(i as int) && i < s@.len(),
            None => last_char_match(s@, c) is None,
        },
{
    let n = s.unicode_len();
    let mut i: usize = n;
    proof {
        lemma_last_char_match(s@, c);
    }
    while i > 0
        invariant
            i <= n,
            n == s@.len(),
            forall|j: int| i <= j < n ==> s@[j] != c,
        decreases i,
    {
        if s.get_char(i - 1) == c {
            proof {
                match last_char_match(s@, c) {
                    Some(k) => {
                        assert(k == i - 1);
                    },
                    None => {
                        assert(s@[i - 1] != c);
                    },
                }
            }
            return Some(i - 1);
        }
        i -= 1;
    }
    proof {
        match last_char_match(s@, c) {
            Some(k) => {
                assert(s@[k] != c);
            },
            None => {},
        }
    }
    None
}

/// Copy of the characters of `s` between `from` and `to`.
pub fn substr_copy(s: &str, from: usize, to: usize) -> (r: String)
    requires
        from <= to <= s@.len(),
    ensures
        r@ == s@.subrange(from as int, to as int),
{
    s.substring_char(from, to).to_owned()
}

/// The number of newline characters in `s` before position `upto`.
pub open spec fn count_newlines(s: Seq<char>, upto: int) -> int
    decreases upto,
{
    if upto <= 0 {
        0
    } else {
        count_newlines(s, upto - 1) + if s[upto - 1] == '\n' {
            1int
        } else {
            0int
        }
    }
}

/// The start of the line containing position `off`: the smallest index with
/// no newline between it and `off`.
pub open spec fn line_start_of(s: Seq<char>, off: int) -> int
    decreases off,
{
    if off <= 0 {
        0
    } else if s[off - 1] == '\n' {
        off
    } else {
        line_start_of(s, off - 1)
    }
}

/// The end of the line containing position `off`: the first newline at or
/// after it, or the end of the text.
pub open spec fn line_end_of(s: Seq<char>, off: int) -> int
    decreases s.len() - off,
    when off <= s.len()
{
    if off >= s.len() {
        s.len() as int
    } else if s[off] == '\n' {
        off
    } else {
        line_end_of(s, off + 1)
    }
}

pub proof fn lemma_line_bounds(s: Seq<char>, off: int)
    requires
        0 <= off <= s.len(),
    ensures
        0 <= line_start_of(s, off) <= off,
        off <= line_end_of(s, off) <= s.len(),
    decreases s.len() + off,
{
    if off > 0 && s[off - 1] != '\n' {
        lemma_line_bounds(s, off - 1);
    }
    lemma_line_end_bounds(s, off);
}

proof fn lemma_line_end_bounds(s: Seq<char>, off: int)
    requires
        0 <= off <= s.len(),
    ensures
        off <= line_end_of(s, off) <= s.len(),
    decreases s.len() - off,
{
    if off < s.len() && s[off] != '\n' {
        lemma_line_end_bounds(s, off + 1);
    }
}

/// Zero-based row of position `off`: how many newlines precede it.
pub fn row_of(s: &str, off: usize) -> (r: usize)
    requires
        off <= s@.len(),
    ensures
        r as int == count_newlines(s@, off as int),
{
    let mut i: usize = 0;
    let mut cnt: usize = 0;
    while i < off
        invariant
            i <= off <= s@.len(),
            cnt <= i,
            cnt as int == count_newlines(s@, i as int),
        decreases off - i,
    {
        if s.get_char(i) == '\n' {
            cnt += 1;
        }
        i += 1;
    }
    cnt
}

/// The start index of the line containing `off`.
#[verifier::loop_isolation(false)]
pub fn line_start(s: &str, off: usize) -> (r: usize)
    requires
        off <= s@.len(),
    ensures
        r as int == line_start_of(s@, off as int),
        r <= off,
{
    let mut j: usize = off;
    while j > 0 && s.get_char(j - 1) != '\n'
        invariant
            j <= off,
            line_start_of(s@, off as int) == line_start_of(s@, j as int),
        decreases j,
    {
        j -= 1;
    }
    j
}

/// The end index of the line containing `off`.
#[verifier::loop_isolation(false)]
pub fn line_end(s: &str, off: usize) -> (r: usize)
    requires
        off <= s@.len(),
    ensures
        r as int == line_end_of(s@, off as int),
        off <= r <= s@.len(),
{
    let n = s.unicode_len();
    let mut j: usize = off;
    while j < n && s.get_char(j) != '\n'
        invariant
            off <= j <= n,
            line_end_of(s@, off as int) == line_end_of(s@, j as int),
        decreases n - j,
    {
        j += 1;
    }
    j
}

/// The UTF-8 encoding length of one character.
pub open spec fn utf8_len(c: char) -> int {
    if (c as u32) < 0x80 {
        1int
    } else if (c as u32) < 0x800 {
        2int
    } else if (c as u32) < 0x10000 {
        3int
    } else {
        4int
    }
}

/// The character offset corresponding to byte offset `b` of the UTF-8
/// encoding of `s`: how many whole characters fit in the first `b` bytes.
pub open spec fn byte_to_char(s: Seq<char>, b: int) -> int
    decreases s.len(),
{
    if s.len() == 0 || b < utf8_len(s[0]) {
        0int
    } else {
        1 + byte_to_char(s.drop_first(), b - utf8_len(s[0]))
    }
}

pub proof fn lemma_byte_to_char_bounds(s: Seq<char>, b: int)
    ensures
        0 <= byte_to_char(s, b) <= s.len(),
    decreases s.len(),
{
    if !(s.len() == 0 || b < utf8_len(s[0])) {
        lemma_byte_to_char_bounds(s.drop_first(), b - utf8_len(s[0]));
    }
}

pub proof fn lemma_byte_to_char_monotone(s: Seq<char>, b1: int, b2: int)
    requires
        b1 <= b2,
    ensures
        byte_to_char(s, b1) <= byte_to_char(s, b2),
    decreases s.len(),
{
    if !(s.len() == 0 || b1 < utf8_len(s[0])) {
        lemma_byte_to_char_monotone(s.drop_first(), b1 - utf8_len(s[0]), b2 - utf8_len(s[0]));
    } else {
        lemma_byte_to_char_bounds(s, b2);
    }
}

/// The UTF-8 encoding length of one character, computed from its scalar
/// value.
pub fn char_utf8_len(c: char) -> (r: usize)
    ensures
        r as int == utf8_len(c),
        1 <= r <= 4,
{
    let x = c as u32;
    if x < 0x80 {
        1
    } else if x < 0x800 {
        2
    } else if x < 0x10000 {
        3
    } else {
        4
    }
}

/// Convert a byte offset into the character offset it falls at (or, inside
/// a character, the offset of that character).
#[verifier::loop_isolation(false)]
pub fn byte_to_char_offset(s: &str, b: usize) -> (r: usize)
    ensures
        r as int == byte_to_char(s@, b as int),
        r <= s@.len(),
{
    let n = s.unicode_len();
    let mut i: usize = 0;
    let mut acc: usize = 0;
    proof {
        assert(s@.skip(0) =~= s@);
    }
    loop
        invariant
            i <= n,
            acc <= b,
            n == s@.len(),
            byte_to_char(s@, b as int) == i + byte_to_char(s@.skip(i as int), b - acc),
        decreases n - i,
    {
        if i >= n {
            proof {
                assert(s@.skip(i as int) =~= Seq::<char>::empty());
            }
            return i;
        }
        let l = char_utf8_len(s.get_char(i));
        proof {
            assert(s@.skip(i as int)[0] == s@[i as int]);
        }
        if l > b - acc {
            return i;
        }
        proof {
            assert(s@.skip(i as int).drop_first() =~= s@.skip(i + 1));
        }
        acc += l;
        i += 1;
    }
}

/// ASCII lower-casing of one character.
pub open spec fn lower_char(c: char) -> char {
    if 65 <= c as u32 && c as u32 <= 90 {
        (((c as u32) as u8) + 32) as char
    } else {
        c
    }
}

/// ASCII lower-casing of a character sequence.
pub open spec fn lower_seq(s: Seq<char>) -> Seq<char> {
    s.map_values(|c: char| lower_char(c))
}

pub fn to_lower(c: char) -> (r: char)
    ensures
        r == lower_char(c),
{
    let x = c as u32;
    if 65 <= x && x <= 90 {
        ((x as u8) + 32) as char
    } else {
        c
    }
}

/// ASCII-case-insensitive equality of `s[lo..hi]` and `t`.
pub fn eq_ignore_case_range(s: &str, lo: usize, hi: usize, t: &str) -> (r: bool)
    requires
        lo <= hi <= s@.len(),
    ensures
        r == (lower_seq(s@.subrange(lo as int, hi as int)) == lower_seq(t@)),
{
    let m = t.unicode_len();
    if hi - lo != m {
        proof {
            assert(lower_seq(s@.subrange(lo as int, hi as int)).len() == hi - lo);
            assert(lower_seq(t@).len() == m as int);
        }
        return false;
    }
    let mut j: usize = 0;
    while j < m
        invariant
            j <= m,
            lo <= hi <= s@.len(),
            hi - lo == m,
            m == t@.len(),
            forall|k: int| 0 <= k < j ==> lower_char(s@[lo + k]) == lower_char(t@[k]),
        decreases m - j,
    {
        if to_lower(s.get_char(lo + j)) != to_lower(t.get_char(j)) {
            proof {
                assert(lower_seq(s@.subrange(lo as int, hi as int))[j as int] == lower_char(
                    s@[lo + j],
                ));
                assert(lower_seq(t@)[j as int] == lower_char(t@[j as int]));
            }
            return false;
        }
        j += 1;
    }
    proof {
        assert(lower_seq(s@.subrange(lo as int, hi as int)) =~= lower_seq(t@)) by {
            assert forall|k: int| 0 <= k < m implies lower_seq(
                s@.subrange(lo as int, hi as int),
            )[k] == lower_seq(t@)[k] by {
                assert(lower_seq(s@.subrange(lo as int, hi as int))[k] == lower_char(s@[lo + k]));
            }
        }
    }
    true
}

/// ASCII-case-insensitive equality of two strings.
pub fn eq_ignore_case(s: &str, t: &str) -> (r: bool)
    ensures
        r == (lower_seq(s@) == lower_seq(t@)),
{
    let n = s.unicode_len();
    let r = eq_ignore_case_range(s, 0, n, t);
    proof {
        assert(s@.subrange(0, n as int) =~= s@);
    }
    r
}

/// Drop leading whitespace.
pub open spec fn trim_front_ws(s: Seq<char>) -> Seq<char>
    decreases s.len(),
{
    if s.len() > 0 && is_space_char(s[0]) {
        trim_front_ws(s.drop_first())
    } else {
        s
    }
}

/// Drop trailing whitespace.
pub open spec fn trim_back_ws(s: Seq<char>) -> Seq<char>
    decreases s.len(),
{
    if s.len() > 0 && is_space_char(s[s.len() - 1]) {
        trim_back_ws(s.drop_last())
    } else {
        s
    }
}

/// Drop whitespace on both sides.
pub open spec fn trim_ws(s: Seq<char>) -> Seq<char> {
    trim_back_ws(trim_front_ws(s))
}

/// Index after which only trailing whitespace follows: the length of the
/// back-trimmed string.
pub fn trim_back_len(s: &str) -> (e: usize)
    ensures
        e <= s@.len(),
        trim_back_ws(s@) == s@.subrange(0, e as int),
{
    let n = s.unicode_len();
    let mut e: usize = n;
    proof {
        assert(s@.subrange(0, n as int) =~= s@);
    }
    while e > 0 && is_space(s.get_char(e - 1))
        invariant
            e <= n,
            n == s@.len(),
            trim_back_ws(s@) == trim_back_ws(s@.subrange(0, e as int)),
        decreases e,
    {
        proof {
            assert(s@.subrange(0, e as int).drop_last() =~= s@.subrange(0, e - 1));
        }
        e -= 1;
    }
    proof {
        if e > 0 {
            assert(s@.subrange(0, e as int)[e - 1] == s@[e - 1]);
        }
    }
    e
}

/// Trim whitespace from the end of the character range `[lo, hi)` of `s`,
/// returning the narrowed end index.
pub fn trim_back_range(s: &str, lo: usize, hi: usize) -> (e: usize)
    requires
        lo <= hi <= s@.len(),
    ensures
        lo <= e <= hi,
        trim_back_ws(s@.subrange(lo as int, hi as int)) == s@.subrange(lo as int, e as int),
{
    let mut e: usize = hi;
    while e > lo && is_space(s.get_char(e - 1))
        invariant
            lo <= e <= hi <= s@.len(),
            trim_back_ws(s@.subrange(lo as int, hi as int)) == trim_back_ws(
                s@.subrange(lo as int, e as int),
            ),
        decreases e,
    {
        proof {
            assert(s@.subrange(lo as int, e as int).drop_last() =~= s@.subrange(lo as int, e - 1));
        }
        e -= 1;
    }
    proof {
        if e > lo {
            assert(s@.subrange(lo as int, e as int)[e - lo - 1] == s@[e - 1]);
        }
    }
    e
}

/// Trim whitespace from both ends of the character range `[lo, hi)` of `s`,
/// returning the narrowed range.
pub fn trim_range(s: &str, lo: usize, hi: usize) -> (r: (usize, usize))
    requires
        lo <= hi <= s@.len(),
    ensures
        lo <= r.0 <= r.1 <= hi,
        trim_ws(s@.subrange(lo as int, hi as int)) == s@.subrange(r.0 as int, r.1 as int),
{
    let mut a: usize = lo;
    while a < hi && is_space(s.get_char(a))
        invariant
            lo <= a <= hi <= s@.len(),
            trim_front_ws(s@.subrange(lo as int, hi as int)) == trim_front_ws(
                s@.subrange(a as int, hi as int),
            ),
        decreases hi - a,
    {
        proof {
            assert(s@.subrange(a as int, hi as int).drop_first() =~= s@.subrange(
                a + 1,
                hi as int,
            ));
        }
        a += 1;
    }
    proof {
        if a < hi {
            assert(s@.subrange(a as int, hi as int)[0] == s@[a as int]);
        }
        assert(trim_front_ws(s@.subrange(lo as int, hi as int)) == s@.subrange(
            a as int,
            hi as int,
        ));
    }
    let mut b: usize = hi;
    while b > a && is_space(s.get_char(b - 1))
        invariant
            lo <= a <= b <= hi <= s@.len(),
            trim_front_ws(s@.subrange(lo as int, hi as int)) == s@.subrange(a as int, hi as int),
            trim_back_ws(s@.subrange(a as int, hi as int)) == trim_back_ws(
                s@.subrange(a as int, b as int),
            ),
        decreases b,
    {
        proof {
            assert(s@.subrange(a as int, b as int).drop_last() =~= s@.subrange(a as int, b - 1));
        }
        b -= 1;
    }
    proof {
        if b > a {
            assert(s@.subrange(a as int, b as int)[b - a - 1] == s@[b - 1]);
        }
    }
    (a, b)
}

} // verus!
