//! Character-level text utilities used by the protocol parsers.
//!
//! Text is handled as sequences of `char`: each operation has a spec
//! function over `Seq<char>` and an executable counterpart proved against it.

use vstd::prelude::*;
use vstd::string::*;
use vstd::utf8::*;

verus! {

/// Unicode `White_Space`, the set that `char::is_whitespace` tests.
pub open spec fn spec_is_whitespace(c: char) -> bool {
    ||| ('\t' <= c && c <= '\r')
    ||| c == ' '
    ||| c == '\u{85}'
    ||| c == '\u{a0}'
    ||| c == '\u{1680}'
    ||| ('\u{2000}' <= c && c <= '\u{200a}')
    ||| c == '\u{2028}'
    ||| c == '\u{2029}'
    ||| c == '\u{202f}'
    ||| c == '\u{205f}'
    ||| c == '\u{3000}'
}

/// Unicode general category `Cc`, the set that `char::is_control` tests.
pub open spec fn spec_is_control(c: char) -> bool {
    ('\u{0}' <= c && c <= '\u{1f}') || ('\u{7f}' <= c && c <= '\u{9f}')
}

pub fn is_whitespace(c: char) -> (b: bool)
    ensures
        b == spec_is_whitespace(c),
{
    ('\t' <= c && c <= '\r') || c == ' ' || c == '\u{85}' || c == '\u{a0}' || c == '\u{1680}' || (
    '\u{2000}' <= c && c <= '\u{200a}') || c == '\u{2028}' || c == '\u{2029}' || c == '\u{202f}'
        || c == '\u{205f}' || c == '\u{3000}'
}

pub fn is_control(c: char) -> (b: bool)
    ensures
        b == spec_is_control(c),
{
    ('\u{0}' <= c && c <= '\u{1f}') || ('\u{7f}' <= c && c <= '\u{9f}')
}

/// What `String::from_utf8_lossy` makes of a byte sequence.
pub uninterp spec fn utf8_lossy(bytes: Seq<u8>) -> Seq<char>;

/// Calls `String::from_utf8_lossy`. The result is named `utf8_lossy` of the
/// input; on well-formed UTF-8 it is the plain decoding.
#[verifier::external_body]
pub fn decode_lossy(bytes: &[u8]) -> (s: String)
    ensures
        s@ == utf8_lossy(bytes@),
        valid_utf8(bytes@) ==> s@ == decode_utf8(bytes@),
{
    String::from_utf8_lossy(bytes).into_owned()
}

/// Calls `String::from_utf8`: succeeds exactly on well-formed UTF-8, which it
/// decodes.
#[verifier::external_body]
pub fn decode_strict(bytes: Vec<u8>) -> (r: Option<String>)
    ensures
        r is Some <==> valid_utf8(bytes@),
        r matches Some(s) ==> s@ == decode_utf8(bytes@),
{
    String::from_utf8(bytes).ok()
}

/// Calls `String::push`: appends one character.
#[verifier::external_body]
pub fn push_char(s: &mut String, c: char)
    ensures
        final(s)@ == old(s)@.push(c),
{
    s.push(c)
}

/// The characters of a string slice.
pub fn chars_of(s: &str) -> (v: Vec<char>)
    ensures
        v@ == s@,
{
    let n = s.unicode_len();
    let mut v: Vec<char> = Vec::new();
    let mut i: usize = 0;
    while i < n
        invariant
            n == s@.len(),
            i <= n,
            v@ == s@.take(i as int),
        decreases n - i,
    {
        let c = s.get_char(i);
        v.push(c);
        i = i + 1;
        assert(v@ =~= s@.take(i as int));
    }
    assert(v@ =~= s@);
    v
}

/// The string made of the given characters.
pub fn string_of(cs: &[char]) -> (s: String)
    ensures
        s@ == cs@,
{
    let mut s = String::new();
    let mut i: usize = 0;
    while i < cs.len()
        invariant
            i <= cs@.len(),
            s@ == cs@.take(i as int),
        decreases cs@.len() - i,
    {
        push_char(&mut s, cs[i]);
        i = i + 1;
        assert(s@ =~= cs@.take(i as int));
    }
    assert(s@ =~= cs@);
    s
}

/// Appends `w` to `v`.
pub fn append_chars(v: &mut Vec<char>, w: &[char])
    ensures
        final(v)@ == old(v)@ + w@,
{
    let mut i: usize = 0;
    while i < w.len()
        invariant
            i <= w@.len(),
            v@ == old(v)@ + w@.take(i as int),
        decreases w@.len() - i,
    {
        v.push(w[i]);
        i = i + 1;
        assert(v@ =~= old(v)@ + w@.take(i as int));
    }
    assert(w@.take(w@.len() as int) =~= w@);
}

/// Appends `w` to `v`.
pub fn append_bytes(v: &mut Vec<u8>, w: &[u8])
    ensures
        final(v)@ == old(v)@ + w@,
{
    let mut i: usize = 0;
    while i < w.len()
        invariant
            i <= w@.len(),
            v@ == old(v)@ + w@.take(i as int),
        decreases w@.len() - i,
    {
        v.push(w[i]);
        i = i + 1;
        assert(v@ =~= old(v)@ + w@.take(i as int));
    }
    assert(w@.take(w@.len() as int) =~= w@);
}

/// The characters `s[start..end]`.
pub fn sub_chars(s: &[char], start: usize, end: usize) -> (v: Vec<char>)
    requires
        start <= end <= s@.len(),
    ensures
        v@ == s@.subrange(start as int, end as int),
{
    let mut v: Vec<char> = Vec::new();
    let mut i: usize = start;
    while i < end
        invariant
            start <= i <= end <= s@.len(),
            v@ == s@.subrange(start as int, i as int),
        decreases end - i,
    {
        v.push(s[i]);
        i = i + 1;
        assert(v@ =~= s@.subrange(start as int, i as int));
    }
    v
}

/// The bytes `s[start..end]`.
pub fn sub_bytes(s: &[u8], start: usize, end: usize) -> (v: Vec<u8>)
    requires
        start <= end <= s@.len(),
    ensures
        v@ == s@.subrange(start as int, end as int),
{
    let mut v: Vec<u8> = Vec::new();
    let mut i: usize = start;
    while i < end
        invariant
            start <= i <= end <= s@.len(),
            v@ == s@.subrange(start as int, i as int),
        decreases end - i,
    {
        v.push(s[i]);
        i = i + 1;
        assert(v@ =~= s@.subrange(start as int, i as int));
    }
    v
}

/// The contents of a sequence of character vectors.
pub open spec fn cvs(v: Seq<Vec<char>>) -> Seq<Seq<char>> {
    v.map_values(|x: Vec<char>| x@)
}

/// The contents of a sequence of strings.
pub open spec fn svs(v: Seq<String>) -> Seq<Seq<char>> {
    v.map_values(|x: String| x@)
}

/// Whether the two character sequences are equal.
pub fn chars_eq(a: &[char], b: &[char]) -> (r: bool)
    ensures
        r == (a@ == b@),
{
    if a.len() != b.len() {
        return false;
    }
    let mut i: usize = 0;
    while i < a.len()
        invariant
            a@.len() == b@.len(),
            i <= a@.len(),
            forall|k: int| 0 <= k < i ==> a@[k] == b@[k],
        decreases a@.len() - i,
    {
        if a[i] != b[i] {
            return false;
        }
        i = i + 1;
    }
    assert(a@ =~= b@);
    true
}

/// Whether the two byte sequences are equal.
pub fn bytes_eq(a: &[u8], b: &[u8]) -> (r: bool)
    ensures
        r == (a@ == b@),
{
    if a.len() != b.len() {
        return false;
    }
    let mut i: usize = 0;
    while i < a.len()
        invariant
            a@.len() == b@.len(),
            i <= a@.len(),
            forall|k: int| 0 <= k < i ==> a@[k] == b@[k],
        decreases a@.len() - i,
    {
        if a[i] != b[i] {
            return false;
        }
        i = i + 1;
    }
    assert(a@ =~= b@);
    true
}

/// Whether `p` is a prefix of `s`.
pub fn starts_with(s: &[char], p: &[char]) -> (r: bool)
    ensures
        r == p@.is_prefix_of(s@),
{
    if p.len() > s.len() {
        return false;
    }
    let mut i: usize = 0;
    while i < p.len()
        invariant
            p@.len() <= s@.len(),
            i <= p@.len(),
            forall|k: int| 0 <= k < i ==> p@[k] == s@[k],
        decreases p@.len() - i,
    {
        if p[i] != s[i] {
            assert(s@.subrange(0, p@.len() as int)[i as int] == s@[i as int]);
            return false;
        }
        i = i + 1;
    }
    assert(p@ =~= s@.subrange(0, p@.len() as int));
    true
}

/// `s` with the prefix `p` removed, when it has that prefix.
pub open spec fn spec_strip_prefix(s: Seq<char>, p: Seq<char>) -> Option<Seq<char>> {
    if p.is_prefix_of(s) {
        Some(s.skip(p.len() as int))
    } else {
        None
    }
}

pub fn strip_prefix(s: &[char], p: &[char]) -> (r: Option<Vec<char>>)
    ensures
        r matches Some(v) ==> spec_strip_prefix(s@, p@) == Some(v@),
        r is None ==> spec_strip_prefix(s@, p@) is None,
{
    if starts_with(s, p) {
        let v = sub_chars(s, p.len(), s.len());
        assert(v@ =~= s@.skip(p@.len() as int));
        Some(v)
    } else {
        None
    }
}

/// `s` with the suffix `p` removed, when it has that suffix.
pub open spec fn spec_strip_suffix_chars(s: Seq<char>, p: Seq<char>) -> Option<Seq<char>> {
    if p.len() <= s.len() && s.skip(s.len() - p.len()) == p {
        Some(s.take(s.len() - p.len()))
    } else {
        None
    }
}

/// `str::strip_suffix`.
pub fn strip_suffix_chars(s: &[char], p: &[char]) -> (r: Option<Vec<char>>)
    ensures
        match r {
            Some(v) => spec_strip_suffix_chars(s@, p@) == Some(v@),
            None => spec_strip_suffix_chars(s@, p@) is None,
        },
{
    if p.len() > s.len() {
        return None;
    }
    let start = s.len() - p.len();
    let tail = sub_chars(s, start, s.len());
    assert(tail@ =~= s@.skip(start as int));
    if chars_eq(tail.as_slice(), p) {
        let head = sub_chars(s, 0, start);
        assert(head@ =~= s@.take(start as int));
        Some(head)
    } else {
        None
    }
}

/// Whether `c` occurs in `s`.
pub fn contains_char(s: &[char], c: char) -> (r: bool)
    ensures
        r == s@.contains(c),
{
    let mut i: usize = 0;
    while i < s.len()
        invariant
            i <= s@.len(),
            forall|k: int| 0 <= k < i ==> s@[k] != c,
        decreases s@.len() - i,
    {
        if s[i] == c {
            assert(s@[i as int] == c);
            return true;
        }
        i = i + 1;
    }
    false
}

/// `s` without its trailing occurrences of `c` (`str::trim_end_matches`).
pub open spec fn spec_trim_end_char(s: Seq<char>, c: char) -> Seq<char>
    decreases s.len(),
{
    if s.len() > 0 && s.last() == c {
        spec_trim_end_char(s.drop_last(), c)
    } else {
        s
    }
}

/// `s` without its leading occurrences of `c` (`str::trim_start_matches`).
pub open spec fn spec_trim_start_char(s: Seq<char>, c: char) -> Seq<char>
    decreases s.len(),
{
    if s.len() > 0 && s[0] == c {
        spec_trim_start_char(s.drop_first(), c)
    } else {
        s
    }
}

/// `s` without leading and trailing occurrences of `c` (`str::trim_matches`).
pub open spec fn spec_trim_char(s: Seq<char>, c: char) -> Seq<char> {
    spec_trim_start_char(spec_trim_end_char(s, c), c)
}

/// `s` without trailing whitespace (`str::trim_end`).
pub open spec fn spec_trim_end(s: Seq<char>) -> Seq<char>
    decreases s.len(),
{
    if s.len() > 0 && spec_is_whitespace(s.last()) {
        spec_trim_end(s.drop_last())
    } else {
        s
    }
}

/// `s` without leading whitespace (`str::trim_start`).
pub open spec fn spec_trim_start(s: Seq<char>) -> Seq<char>
    decreases s.len(),
{
    if s.len() > 0 && spec_is_whitespace(s[0]) {
        spec_trim_start(s.drop_first())
    } else {
        s
    }
}

/// `s` without leading and trailing whitespace (`str::trim`).
pub open spec fn spec_trim(s: Seq<char>) -> Seq<char> {
    spec_trim_start(spec_trim_end(s))
}

proof fn lemma_trim_end_char_take(s: Seq<char>, c: char, j: int)
    requires
        0 <= j < s.len(),
        s[j] == c,
    ensures
        spec_trim_end_char(s.take(j + 1), c) == spec_trim_end_char(s.take(j), c),
{
    assert(s.take(j + 1).drop_last() =~= s.take(j));
}

proof fn lemma_trim_start_char_skip(s: Seq<char>, c: char, i: int)
    requires
        0 <= i < s.len(),
        s[i] == c,
    ensures
        spec_trim_start_char(s.skip(i), c) == spec_trim_start_char(s.skip(i + 1), c),
{
    assert(s.skip(i).drop_first() =~= s.skip(i + 1));
}

proof fn lemma_trim_end_take(s: Seq<char>, j: int)
    requires
        0 <= j < s.len(),
        spec_is_whitespace(s[j]),
    ensures
        spec_trim_end(s.take(j + 1)) == spec_trim_end(s.take(j)),
{
    assert(s.take(j + 1).drop_last() =~= s.take(j));
}

proof fn lemma_trim_start_skip(s: Seq<char>, i: int)
    requires
        0 <= i < s.len(),
        spec_is_whitespace(s[i]),
    ensures
        spec_trim_start(s.skip(i)) == spec_trim_start(s.skip(i + 1)),
{
    assert(s.skip(i).drop_first() =~= s.skip(i + 1));
}

/// Index just past the last character of `s` that is not `c`.
fn trim_end_char_index(s: &[char], c: char) -> (j: usize)
    ensures
        j <= s@.len(),
        spec_trim_end_char(s@, c) == s@.take(j as int),
{
    let mut j: usize = s.len();
    assert(s@.take(j as int) =~= s@);
    while j > 0 && s[j - 1] == c
        invariant
            j <= s@.len(),
            spec_trim_end_char(s@, c) == spec_trim_end_char(s@.take(j as int), c),
        decreases j,
    {
        proof {
            lemma_trim_end_char_take(s@, c, j - 1);
        }
        j = j - 1;
    }
    proof {
        if j > 0 {
            assert(s@.take(j as int).last() == s@[j - 1]);
        }
    }
    j
}

/// Index of the first character of `s[..end]` that is not `c` (or `end`).
fn trim_start_char_index(s: &[char], c: char, end: usize) -> (i: usize)
    requires
        end <= s@.len(),
    ensures
        i <= end,
        spec_trim_start_char(s@.take(end as int), c) == s@.subrange(i as int, end as int),
{
    let ghost t = s@.take(end as int);
    let mut i: usize = 0;
    assert(t.skip(0) =~= t);
    while i < end && s[i] == c
        invariant
            i <= end <= s@.len(),
            t == s@.take(end as int),
            spec_trim_start_char(t, c) == spec_trim_start_char(t.skip(i as int), c),
        decreases end - i,
    {
        proof {
            lemma_trim_start_char_skip(t, c, i as int);
        }
        i = i + 1;
    }
    assert(t.skip(i as int) =~= s@.subrange(i as int, end as int));
    i
}

/// `str::trim_end_matches(c)`.
pub fn trim_end_char(s: &[char], c: char) -> (v: Vec<char>)
    ensures
        v@ == spec_trim_end_char(s@, c),
{
    let j = trim_end_char_index(s, c);
    let v = sub_chars(s, 0, j);
    assert(v@ =~= s@.take(j as int));
    v
}

/// `str::trim_matches(c)`.
pub fn trim_char(s: &[char], c: char) -> (v: Vec<char>)
    ensures
        v@ == spec_trim_char(s@, c),
{
    let j = trim_end_char_index(s, c);
    let i = trim_start_char_index(s, c, j);
    sub_chars(s, i, j)
}

/// Index just past the last non-whitespace character of `s`.
fn trim_end_index(s: &[char]) -> (j: usize)
    ensures
        j <= s@.len(),
        spec_trim_end(s@) == s@.take(j as int),
{
    let mut j: usize = s.len();
    assert(s@.take(j as int) =~= s@);
    while j > 0 && is_whitespace(s[j - 1])
        invariant
            j <= s@.len(),
            spec_trim_end(s@) == spec_trim_end(s@.take(j as int)),
        decreases j,
    {
        proof {
            lemma_trim_end_take(s@, j - 1);
        }
        j = j - 1;
    }
    proof {
        if j > 0 {
            assert(s@.take(j as int).last() == s@[j - 1]);
        }
    }
    j
}

/// Index of the first non-whitespace character of `s[..end]` (or `end`).
fn trim_start_index(s: &[char], end: usize) -> (i: usize)
    requires
        end <= s@.len(),
    ensures
        i <= end,
        spec_trim_start(s@.take(end as int)) == s@.subrange(i as int, end as int),
{
    let ghost t = s@.take(end as int);
    let mut i: usize = 0;
    assert(t.skip(0) =~= t);
    while i < end && is_whitespace(s[i])
        invariant
            i <= end <= s@.len(),
            t == s@.take(end as int),
            spec_trim_start(t) == spec_trim_start(t.skip(i as int)),
        decreases end - i,
    {
        proof {
            lemma_trim_start_skip(t, i as int);
        }
        i = i + 1;
    }
    assert(t.skip(i as int) =~= s@.subrange(i as int, end as int));
    i
}

/// `str::trim`.
pub fn trim(s: &[char]) -> (v: Vec<char>)
    ensures
        v@ == spec_trim(s@),
{
    let j = trim_end_index(s);
    let i = trim_start_index(s, j);
    sub_chars(s, i, j)
}

/// `str::trim_end`.
pub fn trim_end(s: &[char]) -> (v: Vec<char>)
    ensures
        v@ == spec_trim_end(s@),
{
    let j = trim_end_index(s);
    let v = sub_chars(s, 0, j);
    assert(v@ =~= s@.take(j as int));
    v
}

/// The pieces of `s` between occurrences of `sep` (`str::split(sep)`):
/// always at least one piece, possibly empty.
pub open spec fn spec_split(s: Seq<char>, sep: char) -> Seq<Seq<char>>
    decreases s.len(),
{
    if s.len() == 0 {
        seq![Seq::<char>::empty()]
    } else {
        let init = spec_split(s.drop_last(), sep);
        if s.last() == sep {
            init.push(Seq::<char>::empty())
        } else {
            init.update(init.len() - 1, init.last().push(s.last()))
        }
    }
}

pub proof fn lemma_split_len(s: Seq<char>, sep: char)
    ensures
        spec_split(s, sep).len() >= 1,
    decreases s.len(),
{
    if s.len() > 0 {
        lemma_split_len(s.drop_last(), sep);
    }
}

/// Splitting text that joins two parts with the separator splits each part.
pub proof fn lemma_split_concat(a: Seq<char>, b: Seq<char>, sep: char)
    ensures
        spec_split(a + seq![sep] + b, sep) == spec_split(a, sep) + spec_split(b, sep),
    decreases b.len(),
{
    let ab = a + seq![sep] + b;
    if b.len() == 0 {
        assert(ab =~= (a + seq![sep]));
        assert((a + seq![sep]).drop_last() =~= a);
        assert(spec_split(b, sep) =~= seq![Seq::<char>::empty()]);
        assert(spec_split(a, sep).push(Seq::<char>::empty()) =~= spec_split(a, sep) + seq![Seq::<char>::empty()]);
    } else {
        let b2 = b.drop_last();
        let x = b.last();
        lemma_split_concat(a, b2, sep);
        lemma_split_len(b2, sep);
        assert(ab.drop_last() =~= a + seq![sep] + b2);
        assert(ab.last() == x);
        let sa = spec_split(a, sep);
        let sb2 = spec_split(b2, sep);
        if x == sep {
            assert((sa + sb2).push(Seq::<char>::empty()) =~= sa + sb2.push(Seq::<char>::empty()));
        } else {
            let init = sa + sb2;
            assert(init.last() == sb2.last());
            assert(init.update(init.len() - 1, init.last().push(x)) =~= sa + sb2.update(sb2.len() - 1, sb2.last().push(x)));
        }
    }
}

/// Text without the separator splits into itself alone.
pub proof fn lemma_split_without_sep(x: Seq<char>, sep: char)
    requires
        !x.contains(sep),
    ensures
        spec_split(x, sep) == seq![x],
    decreases x.len(),
{
    if x.len() == 0 {
        assert(x =~= Seq::<char>::empty());
        assert(spec_split(x, sep) =~= seq![x]);
    } else {
        assert(!x.drop_last().contains(sep)) by {
            if x.drop_last().contains(sep) {
                let k = choose|k: int| 0 <= k < x.drop_last().len() && x.drop_last()[k] == sep;
                assert(x[k] == sep);
            }
        }
        lemma_split_without_sep(x.drop_last(), sep);
        assert(x.last() != sep) by {
            assert(x[x.len() - 1] == x.last());
        }
        assert(x.drop_last().push(x.last()) =~= x);
        let init = spec_split(x.drop_last(), sep);
        assert(init.update(init.len() - 1, init.last().push(x.last())) =~= seq![x]);
    }
}

/// No piece of a split holds the separator.
pub proof fn lemma_split_pieces_without_sep(s: Seq<char>, sep: char)
    ensures
        forall|k: int| 0 <= k < spec_split(s, sep).len() ==> !(#[trigger] spec_split(s, sep)[k]).contains(sep),
    decreases s.len(),
{
    if s.len() > 0 {
        lemma_split_pieces_without_sep(s.drop_last(), sep);
        lemma_split_len(s.drop_last(), sep);
        let init = spec_split(s.drop_last(), sep);
        if s.last() != sep {
            let last = init.last().push(s.last());
            assert(!last.contains(sep)) by {
                assert(!init[init.len() - 1].contains(sep));
                if last.contains(sep) {
                    let k = choose|k: int| 0 <= k < last.len() && last[k] == sep;
                    if k < init.last().len() {
                        assert(init.last()[k] == sep);
                    }
                }
            }
            assert forall|k: int| 0 <= k < spec_split(s, sep).len() implies !(#[trigger] spec_split(s, sep)[k]).contains(sep) by {
                if k < init.len() - 1 {
                    assert(spec_split(s, sep)[k] == init[k]);
                }
            }
        } else {
            assert forall|k: int| 0 <= k < spec_split(s, sep).len() implies !(#[trigger] spec_split(s, sep)[k]).contains(sep) by {
                if k < init.len() {
                    assert(spec_split(s, sep)[k] == init[k]);
                } else {
                    assert(spec_split(s, sep)[k] =~= Seq::<char>::empty());
                }
            }
        }
    }
}

/// Trailing whitespace removal keeps a prefix and leaves no trailing
/// whitespace.
pub proof fn lemma_trim_end_shape(s: Seq<char>)
    ensures
        spec_trim_end(s) == s.take(spec_trim_end(s).len() as int),
        spec_trim_end(s).len() <= s.len(),
        spec_trim_end(s).len() == 0 || !spec_is_whitespace(spec_trim_end(s).last()),
    decreases s.len(),
{
    if s.len() > 0 && spec_is_whitespace(s.last()) {
        lemma_trim_end_shape(s.drop_last());
        assert(s.drop_last().take(spec_trim_end(s).len() as int) =~= s.take(spec_trim_end(s).len() as int));
    } else {
        assert(s.take(s.len() as int) =~= s);
    }
}

/// Leading whitespace removal keeps a suffix and leaves no leading
/// whitespace.
pub proof fn lemma_trim_start_shape(s: Seq<char>)
    ensures
        spec_trim_start(s) == s.skip(s.len() - spec_trim_start(s).len()),
        spec_trim_start(s).len() <= s.len(),
        spec_trim_start(s).len() == 0 || !spec_is_whitespace(spec_trim_start(s)[0]),
    decreases s.len(),
{
    if s.len() > 0 && spec_is_whitespace(s[0]) {
        lemma_trim_start_shape(s.drop_first());
        assert(s.drop_first().skip(s.drop_first().len() - spec_trim_start(s).len()) =~= s.skip(s.len() - spec_trim_start(s).len()));
    } else {
        assert(s.skip(0) =~= s);
    }
}

/// Trimmed text begins and ends with no whitespace, and holds only
/// characters of the untrimmed text.
pub proof fn lemma_trim_shape(s: Seq<char>)
    ensures
        spec_trim(s).len() == 0 || (!spec_is_whitespace(spec_trim(s)[0]) && !spec_is_whitespace(spec_trim(s).last())),
        forall|c: char| spec_trim(s).contains(c) ==> s.contains(c),
{
    let e = spec_trim_end(s);
    let t = spec_trim(s);
    lemma_trim_end_shape(s);
    lemma_trim_start_shape(e);
    if t.len() > 0 {
        assert(t.last() == e.last());
    }
    assert forall|c: char| t.contains(c) implies s.contains(c) by {
        let k = choose|k: int| 0 <= k < t.len() && t[k] == c;
        let off = e.len() - t.len();
        assert(t[k] == e[k + off]);
        assert(e[k + off] == s[k + off]);
    }
}

/// Text that begins and ends with no whitespace is its own trim.
pub proof fn lemma_trim_of_trimmed(s: Seq<char>)
    requires
        s.len() == 0 || (!spec_is_whitespace(s[0]) && !spec_is_whitespace(s.last())),
    ensures
        spec_trim(s) == s,
{
}

/// Trailing whitespace removal of a concatenation.
proof fn lemma_trim_end_concat(a: Seq<char>, b: Seq<char>)
    ensures
        spec_trim_end(a + b) == if spec_trim_end(b).len() == 0 {
            spec_trim_end(a)
        } else {
            a + spec_trim_end(b)
        },
    decreases b.len(),
{
    if b.len() == 0 {
        assert(a + b =~= a);
    } else {
        assert((a + b).drop_last() =~= a + b.drop_last());
        assert((a + b).last() == b.last());
        if spec_is_whitespace(b.last()) {
            lemma_trim_end_concat(a, b.drop_last());
        }
    }
}

/// A leading space does not change the trim.
pub proof fn lemma_trim_leading_space(s: Seq<char>)
    ensures
        spec_trim(seq![' '] + s) == spec_trim(s),
{
    lemma_trim_end_concat(seq![' '], s);
    let e = spec_trim_end(s);
    if e.len() == 0 {
        assert(seq![' '].drop_last() =~= Seq::<char>::empty());
        assert(seq![' '].last() == ' ');
        assert(spec_is_whitespace(' '));
        assert(spec_trim_end(Seq::<char>::empty()) =~= Seq::<char>::empty());
        assert(spec_trim_end(seq![' ']) =~= Seq::<char>::empty());
    } else {
        let se = seq![' '] + e;
        assert(se[0] == ' ');
        assert(se.drop_first() =~= e);
    }
}

/// `str::split(sep)`, collected.
pub fn split_char(s: &[char], sep: char) -> (pieces: Vec<Vec<char>>)
    ensures
        cvs(pieces@) == spec_split(s@, sep),
{
    let mut pieces: Vec<Vec<char>> = Vec::new();
    let mut cur: Vec<char> = Vec::new();
    let mut i: usize = 0;
    proof {
        assert(s@.take(0) =~= Seq::<char>::empty());
    }
    while i < s.len()
        invariant
            i <= s@.len(),
            cvs(pieces@).push(cur@) == spec_split(s@.take(i as int), sep),
        decreases s@.len() - i,
    {
        let c = s[i];
        proof {
            assert(s@.take(i + 1).drop_last() =~= s@.take(i as int));
            assert(s@.take(i + 1).last() == c);
            lemma_split_len(s@.take(i as int), sep);
        }
        let ghost before = cvs(pieces@).push(cur@);
        if c == sep {
            let done = cur;
            pieces.push(done);
            cur = Vec::new();
            assert(cvs(pieces@) =~= before);
            assert(cvs(pieces@).push(cur@) =~= before.push(Seq::<char>::empty()));
        } else {
            cur.push(c);
            assert(cvs(pieces@).push(cur@) =~= before.update(before.len() - 1, before.last().push(c)));
        }
        i = i + 1;
    }
    assert(s@.take(s@.len() as int) =~= s@);
    pieces.push(cur);
    pieces
}

/// The maximal runs of non-whitespace characters of `s`
/// (`str::split_whitespace`).
pub open spec fn spec_split_whitespace(s: Seq<char>) -> Seq<Seq<char>>
    decreases s.len(),
{
    if s.len() == 0 {
        Seq::empty()
    } else {
        let init = spec_split_whitespace(s.drop_last());
        if spec_is_whitespace(s.last()) {
            init
        } else if s.len() == 1 || spec_is_whitespace(s[s.len() - 2]) {
            init.push(seq![s.last()])
        } else {
            init.update(init.len() - 1, init.last().push(s.last()))
        }
    }
}

/// `str::split_whitespace`, collected.
pub fn split_whitespace(s: &[char]) -> (pieces: Vec<Vec<char>>)
    ensures
        cvs(pieces@) == spec_split_whitespace(s@),
{
    let mut pieces: Vec<Vec<char>> = Vec::new();
    let mut i: usize = 0;
    proof {
        assert(s@.take(0) =~= Seq::<char>::empty());
    }
    while i < s.len()
        invariant
            i <= s@.len(),
            cvs(pieces@) == spec_split_whitespace(s@.take(i as int)),
            i > 0 && !spec_is_whitespace(s@[i - 1]) ==> pieces@.len() >= 1,
        decreases s@.len() - i,
    {
        let c = s[i];
        let ghost before = cvs(pieces@);
        proof {
            let t = s@.take(i + 1);
            assert(t.drop_last() =~= s@.take(i as int));
            assert(t.last() == c);
            if i > 0 {
                assert(t[t.len() - 2] == s@[i - 1]);
            }
        }
        if is_whitespace(c) {
        } else if i == 0 || is_whitespace(s[i - 1]) {
            let mut w: Vec<char> = Vec::new();
            w.push(c);
            pieces.push(w);
            assert(cvs(pieces@) =~= before.push(seq![c]));
        } else {
            let last = pieces.len() - 1;
            let mut w = pieces.remove(last);
            w.push(c);
            pieces.push(w);
            assert(cvs(pieces@) =~= before.update(before.len() - 1, before.last().push(c)));
        }
        i = i + 1;
    }
    assert(s@.take(s@.len() as int) =~= s@);
    pieces
}

/// The characters of a string, as a vector.
pub fn string_chars(s: &String) -> (v: Vec<char>)
    ensures
        v@ == s@,
{
    chars_of(s.as_str())
}

/// Strings of the given character vectors.
pub fn strings_of(pieces: &Vec<Vec<char>>) -> (v: Vec<String>)
    ensures
        svs(v@) == cvs(pieces@),
{
    let mut v: Vec<String> = Vec::new();
    let mut i: usize = 0;
    while i < pieces.len()
        invariant
            i <= pieces@.len(),
            svs(v@) == cvs(pieces@).take(i as int),
        decreases pieces@.len() - i,
    {
        let s = string_of(pieces[i].as_slice());
        assert(s@ == pieces@[i as int]@);
        let ghost old_v = v@;
        v.push(s);
        assert(svs(v@) =~= svs(old_v).push(pieces@[i as int]@));
        assert(cvs(pieces@).take(i + 1) =~= cvs(pieces@).take(i as int).push(pieces@[i as int]@));
        i = i + 1;
    }
    assert(cvs(pieces@).take(pieces@.len() as int) =~= cvs(pieces@));
    v
}

/// The decimal digit character for `d < 10`.
pub open spec fn digit_char(d: nat) -> char {
    ((48 + d) as u8) as char
}

/// Decimal notation of `n`, as `u64`'s `Display` writes it.
pub open spec fn spec_decimal(n: nat) -> Seq<char>
    decreases n,
{
    if n < 10 {
        seq![digit_char(n)]
    } else {
        spec_decimal(n / 10).push(digit_char(n % 10))
    }
}

/// Decimal notation of `n`.
pub fn decimal_chars(n: u64) -> (v: Vec<char>)
    ensures
        v@ == spec_decimal(n as nat),
    decreases n,
{
    if n < 10 {
        let d: u8 = n as u8;
        let mut v: Vec<char> = Vec::new();
        v.push((48u8 + d) as char);
        v
    } else {
        let mut v = decimal_chars(n / 10);
        let d: u8 = (n % 10) as u8;
        v.push((48u8 + d) as char);
        v
    }
}

/// Whether a string holds exactly the characters of `lit`.
pub fn string_is(s: &String, lit: &str) -> (r: bool)
    ensures
        r == (s@ == lit@),
{
    let a = string_chars(s);
    let b = chars_of(lit);
    chars_eq(a.as_slice(), b.as_slice())
}

/// Whether a string slice holds exactly the characters of `lit`.
pub fn str_is(s: &str, lit: &str) -> (r: bool)
    ensures
        r == (s@ == lit@),
{
    let a = chars_of(s);
    let b = chars_of(lit);
    chars_eq(a.as_slice(), b.as_slice())
}

/// A copy of a string.
pub fn copy_string(s: &String) -> (r: String)
    ensures
        r@ == s@,
{
    s.clone()
}

/// The UTF-8 bytes of a character sequence.
pub fn utf8_bytes(cs: &[char]) -> (b: Vec<u8>)
    ensures
        b@ == encode_utf8(cs@),
{
    let s = string_of(cs);
    vstd::slice::slice_to_vec(s.as_str().as_bytes())
}

/// `s` without one trailing carriage return, if it has one.
pub open spec fn spec_strip_cr(s: Seq<char>) -> Seq<char> {
    if s.len() > 0 && s.last() == '\r' {
        s.drop_last()
    } else {
        s
    }
}

/// The lines of `s` (`str::lines`): the pieces between newlines, without a
/// final empty piece, each without one trailing carriage return.
pub open spec fn spec_lines(s: Seq<char>) -> Seq<Seq<char>> {
    let pieces = spec_split(s, '\n');
    let kept = if pieces.last().len() == 0 {
        pieces.drop_last()
    } else {
        pieces
    };
    kept.map_values(|p: Seq<char>| spec_strip_cr(p))
}

/// `str::lines`, collected.
pub fn lines(s: &[char]) -> (v: Vec<String>)
    ensures
        svs(v@) == spec_lines(s@),
{
    let pieces = split_char(s, '\n');
    proof {
        lemma_split_len(s@, '\n');
    }
    let n = pieces.len();
    let keep = if pieces[n - 1].len() == 0 {
        n - 1
    } else {
        n
    };
    let ghost kept = if cvs(pieces@).last().len() == 0 {
        cvs(pieces@).drop_last()
    } else {
        cvs(pieces@)
    };
    assert(kept.len() == keep);
    let mut v: Vec<String> = Vec::new();
    let mut i: usize = 0;
    while i < keep
        invariant
            i <= keep <= n,
            n == pieces@.len(),
            kept.len() == keep,
            forall|k: int| 0 <= k < keep ==> #[trigger] kept[k] == pieces@[k]@,
            v@.len() == i,
            forall|k: int| 0 <= k < i ==> (#[trigger] v@[k])@ == spec_strip_cr(kept[k]),
        decreases keep - i,
    {
        let p = &pieces[i];
        let plen = p.len();
        let line = if plen > 0 && p[plen - 1] == '\r' {
            sub_chars(p.as_slice(), 0, plen - 1)
        } else {
            sub_chars(p.as_slice(), 0, plen)
        };
        proof {
            if plen > 0 {
                assert(p@.last() == p@[plen - 1]);
            }
            assert(p@.subrange(0, plen as int) =~= p@);
            assert(p@.subrange(0, plen - 1) =~= p@.drop_last());
        }
        v.push(string_of(line.as_slice()));
        i = i + 1;
    }
    assert(svs(v@) =~= spec_lines(s@));
    v
}

/// Whether `c` is an ASCII decimal digit.
pub open spec fn is_digit(c: char) -> bool {
    '0' <= c && c <= '9'
}

/// The value of an ASCII decimal digit.
pub open spec fn digit_value(c: char) -> nat {
    (c as u32 - 48) as nat
}

/// The value of a sequence of decimal digits.
pub open spec fn digits_value(s: Seq<char>) -> nat
    decreases s.len(),
{
    if s.len() == 0 {
        0
    } else {
        digits_value(s.drop_last()) * 10 + digit_value(s.last())
    }
}

/// Whether `s` is a nonempty sequence of decimal digits.
pub open spec fn all_digits(s: Seq<char>) -> bool {
    s.len() > 0 && forall|k: int| 0 <= k < s.len() ==> is_digit(#[trigger] s[k])
}

/// What `str::parse::<u32>` makes of `s`: an optional `+` and decimal digits
/// whose value fits.
pub open spec fn spec_parse_u32(s: Seq<char>) -> Option<u32> {
    let digits = if s.len() > 0 && s[0] == '+' {
        s.drop_first()
    } else {
        s
    };
    if all_digits(digits) && digits_value(digits) <= u32::MAX {
        Some(digits_value(digits) as u32)
    } else {
        None
    }
}

/// What `str::parse::<i64>` makes of `s`: an optional sign and decimal digits
/// whose value fits.
pub open spec fn spec_parse_i64(s: Seq<char>) -> Option<i64> {
    let negative = s.len() > 0 && s[0] == '-';
    let digits = if s.len() > 0 && (s[0] == '+' || s[0] == '-') {
        s.drop_first()
    } else {
        s
    };
    if !all_digits(digits) {
        None
    } else if negative {
        if digits_value(digits) <= 0x8000_0000_0000_0000 {
            Some((0 - digits_value(digits)) as i64)
        } else {
            None
        }
    } else if digits_value(digits) <= i64::MAX {
        Some(digits_value(digits) as i64)
    } else {
        None
    }
}

proof fn lemma_digits_value_grows(s: Seq<char>, i: int)
    requires
        0 <= i <= s.len(),
    ensures
        digits_value(s.take(i)) <= digits_value(s),
    decreases s.len() - i,
{
    if i < s.len() {
        lemma_digits_value_grows(s, i + 1);
        assert(s.take(i + 1).drop_last() =~= s.take(i));
    } else {
        assert(s.take(i) =~= s);
    }
}

/// The value of the decimal digits `s`, if they are digits and the value is
/// at most `limit`.
fn digits_upto(s: &[char], limit: u64) -> (r: Option<u64>)
    requires
        limit >= 9,
    ensures
        r matches Some(v) ==> all_digits(s@) && v == digits_value(s@) && v <= limit,
        r is None ==> !(all_digits(s@) && digits_value(s@) <= limit),
{
    if s.len() == 0 {
        return None;
    }
    let mut acc: u64 = 0;
    let mut i: usize = 0;
    assert(s@.take(0) =~= Seq::<char>::empty());
    while i < s.len()
        invariant
            i <= s@.len(),
            forall|k: int| 0 <= k < i ==> is_digit(#[trigger] s@[k]),
            acc == digits_value(s@.take(i as int)),
            acc <= limit,
            limit >= 9,
        decreases s@.len() - i,
    {
        let c = s[i];
        if !('0' <= c && c <= '9') {
            assert(!is_digit(s@[i as int]));
            return None;
        }
        let d: u64 = (c as u32 - 48) as u64;
        assert(s@.take(i + 1).drop_last() =~= s@.take(i as int));
        if acc > (limit - d) / 10 {
            proof {
                assert(acc * 10 + d > limit) by (nonlinear_arith)
                    requires
                        acc > (limit - d) / 10,
                        d <= 9,
                        limit >= 9,
                ;
                lemma_digits_value_grows(s@, i + 1);
            }
            return None;
        }
        proof {
            assert(acc * 10 + d <= limit) by (nonlinear_arith)
                requires
                    acc <= (limit - d) / 10,
                    d <= 9,
                    limit >= 9,
            ;
        }
        acc = acc * 10 + d;
        i = i + 1;
    }
    assert(s@.take(s@.len() as int) =~= s@);
    Some(acc)
}

/// `str::parse::<u32>`.
pub fn parse_u32(s: &[char]) -> (r: Option<u32>)
    ensures
        r == spec_parse_u32(s@),
{
    let digits = if s.len() > 0 && s[0] == '+' {
        sub_chars(s, 1, s.len())
    } else {
        sub_chars(s, 0, s.len())
    };
    assert(s@.subrange(0, s@.len() as int) =~= s@);
    assert(s@.len() > 0 ==> s@.subrange(1, s@.len() as int) =~= s@.drop_first());
    match digits_upto(digits.as_slice(), 0xffff_ffff) {
        Some(v) => Some(v as u32),
        None => None,
    }
}

/// `str::parse::<i64>`.
pub fn parse_i64(s: &[char]) -> (r: Option<i64>)
    ensures
        r == spec_parse_i64(s@),
{
    let negative = s.len() > 0 && s[0] == '-';
    let digits = if s.len() > 0 && (s[0] == '+' || s[0] == '-') {
        sub_chars(s, 1, s.len())
    } else {
        sub_chars(s, 0, s.len())
    };
    assert(s@.subrange(0, s@.len() as int) =~= s@);
    assert(s@.len() > 0 ==> s@.subrange(1, s@.len() as int) =~= s@.drop_first());
    if negative {
        match digits_upto(digits.as_slice(), 0x8000_0000_0000_0000) {
            Some(v) => {
                if v == 0x8000_0000_0000_0000 {
                    Some(i64::MIN)
                } else {
                    Some(0 - (v as i64))
                }
            },
            None => None,
        }
    } else {
        match digits_upto(digits.as_slice(), 0x7fff_ffff_ffff_ffff) {
            Some(v) => Some(v as i64),
            None => None,
        }
    }
}

/// Decimal notation of an integer, with a minus sign when negative.
pub open spec fn spec_int_text(v: int) -> Seq<char> {
    if v < 0 {
        seq!['-'] + spec_decimal((0 - v) as nat)
    } else {
        spec_decimal(v as nat)
    }
}

/// Decimal notation of an `i64`.
pub fn int_text(v: i64) -> (s: Vec<char>)
    ensures
        s@ == spec_int_text(v as int),
{
    if v < 0 {
        let magnitude: u64 = if v == i64::MIN {
            0x8000_0000_0000_0000u64
        } else {
            (0 - v) as u64
        };
        let mut s: Vec<char> = Vec::new();
        s.push('-');
        append_chars(&mut s, decimal_chars(magnitude).as_slice());
        s
    } else {
        decimal_chars(v as u64)
    }
}

// ── Order ────────────────────────────────────────────────────────────────

/// Lexicographic order on character sequences, by code point: the order of
/// `String`, whose UTF-8 bytes compare as their code points do.
pub open spec fn chars_lt(a: Seq<char>, b: Seq<char>) -> bool
    decreases a.len(),
{
    if a.len() == 0 {
        b.len() > 0
    } else if b.len() == 0 {
        false
    } else if a[0] != b[0] {
        (a[0] as u32) < (b[0] as u32)
    } else {
        chars_lt(a.drop_first(), b.drop_first())
    }
}

/// No sequence precedes itself.
pub proof fn lemma_chars_lt_irreflexive(a: Seq<char>)
    ensures
        !chars_lt(a, a),
    decreases a.len(),
{
    if a.len() > 0 {
        lemma_chars_lt_irreflexive(a.drop_first());
    }
}

/// Of two different sequences, one precedes the other, and not both.
pub proof fn lemma_chars_lt_total(a: Seq<char>, b: Seq<char>)
    ensures
        a != b ==> (chars_lt(a, b) || chars_lt(b, a)),
        !(chars_lt(a, b) && chars_lt(b, a)),
    decreases a.len(),
{
    if a.len() > 0 && b.len() > 0 && a[0] == b[0] {
        lemma_chars_lt_total(a.drop_first(), b.drop_first());
        if a != b {
            assert(a.drop_first() != b.drop_first()) by {
                if a.drop_first() == b.drop_first() {
                    assert(a =~= seq![a[0]] + a.drop_first());
                    assert(b =~= seq![b[0]] + b.drop_first());
                }
            }
        }
    } else if a.len() == 0 && b.len() == 0 {
        assert(a =~= b);
    } else if a.len() > 0 && b.len() > 0 {
        char_u32_cast(a[0], a[0] as u32);
        char_u32_cast(b[0], b[0] as u32);
    }
}

/// The order is transitive.
pub proof fn lemma_chars_lt_transitive(a: Seq<char>, b: Seq<char>, c: Seq<char>)
    requires
        chars_lt(a, b),
        chars_lt(b, c),
    ensures
        chars_lt(a, c),
    decreases a.len(),
{
    if a.len() > 0 && b.len() > 0 && c.len() > 0 && a[0] == b[0] && b[0] == c[0] {
        lemma_chars_lt_transitive(a.drop_first(), b.drop_first(), c.drop_first());
    }
}

/// Whether `a` precedes `b` in lexicographic order.
pub fn chars_less(a: &[char], b: &[char]) -> (r: bool)
    ensures
        r == chars_lt(a@, b@),
{
    let mut i: usize = 0;
    assert(a@.skip(0) =~= a@);
    assert(b@.skip(0) =~= b@);
    while i < a.len() && i < b.len()
        invariant
            i <= a@.len(),
            i <= b@.len(),
            chars_lt(a@, b@) == chars_lt(a@.skip(i as int), b@.skip(i as int)),
        decreases a@.len() - i,
    {
        let x = a[i];
        let y = b[i];
        assert(a@.skip(i as int)[0] == x);
        assert(b@.skip(i as int)[0] == y);
        if x != y {
            return (x as u32) < (y as u32);
        }
        assert(a@.skip(i as int).drop_first() =~= a@.skip(i + 1));
        assert(b@.skip(i as int).drop_first() =~= b@.skip(i + 1));
        i = i + 1;
    }
    assert(a@.skip(i as int).len() == 0 || b@.skip(i as int).len() == 0);
    i == a.len() && i < b.len()
}

/// Whether the strings are in strictly increasing order.
pub open spec fn strictly_sorted(s: Seq<Seq<char>>) -> bool {
    forall|i: int, j: int| 0 <= i < j < s.len() ==> chars_lt(#[trigger] s[i], #[trigger] s[j])
}

/// Insert a string into a strictly sorted vector of strings, unless it holds
/// the string already.
pub fn insert_sorted(v: &mut Vec<String>, x: String)
    requires
        strictly_sorted(svs(old(v)@)),
    ensures
        strictly_sorted(svs(final(v)@)),
        svs(final(v)@).to_set() == svs(old(v)@).to_set().insert(x@),
{
    let ghost old_v = svs(v@);
    let xc = string_chars(&x);
    let mut pos: usize = 0;
    let mut found_place = false;
    let mut remaining: usize = v.len();
    while pos < v.len() && !found_place
        invariant
            pos <= v@.len(),
            old_v == svs(v@),
            strictly_sorted(old_v),
            xc@ == x@,
            forall|k: int| 0 <= k < pos ==> chars_lt(#[trigger] old_v[k], x@),
            found_place ==> pos < old_v.len() && chars_lt(x@, old_v[pos as int]),
            remaining == if found_place { 0 } else { old_v.len() - pos },
        decreases remaining,
    {
        let yc = string_chars(&v[pos]);
        if chars_eq(xc.as_slice(), yc.as_slice()) {
            assert(old_v[pos as int] == x@);
            assert(old_v.to_set().insert(x@) =~= old_v.to_set());
            return;
        }
        if chars_less(xc.as_slice(), yc.as_slice()) {
            found_place = true;
            remaining = 0;
        } else {
            proof {
                lemma_chars_lt_total(x@, old_v[pos as int]);
            }
            pos = pos + 1;
            remaining = remaining - 1;
        }
    }
    proof {
        assert forall|k: int| pos <= k < old_v.len() implies chars_lt(x@, #[trigger] old_v[k]) by {
            if k > pos {
                lemma_chars_lt_transitive(x@, old_v[pos as int], old_v[k]);
            }
        }
    }
    v.insert(pos, x);
    let ghost nv = svs(v@);
    assert(nv =~= old_v.insert(pos as int, x@));
    assert forall|i: int, j: int| 0 <= i < j < nv.len() implies chars_lt(#[trigger] nv[i], #[trigger] nv[j]) by {
        if j < pos {
        } else if j == pos {
        } else if i < pos {
            lemma_chars_lt_transitive(nv[i], x@, nv[j]);
        } else if i == pos {
        } else {
        }
    }
    assert(nv.to_set() =~= old_v.to_set().insert(x@)) by {
        assert forall|e: Seq<char>| nv.to_set().contains(e) implies old_v.to_set().insert(x@).contains(e) by {
            let k = choose|k: int| 0 <= k < nv.len() && nv[k] == e;
            if k < pos {
                assert(old_v[k] == e);
            } else if k > pos {
                assert(old_v[k - 1] == e);
            }
        }
        assert forall|e: Seq<char>| old_v.to_set().insert(x@).contains(e) implies nv.to_set().contains(e) by {
            if e == x@ {
                assert(nv[pos as int] == e);
            } else {
                let k = choose|k: int| 0 <= k < old_v.len() && old_v[k] == e;
                if k < pos {
                    assert(nv[k] == e);
                } else {
                    assert(nv[k + 1] == e);
                }
            }
        }
    }
}

// ── Substrings ───────────────────────────────────────────────────────────

/// Whether `sub` occurs in `s` at position `at`.
pub open spec fn occurs_at(s: Seq<char>, sub: Seq<char>, at: int) -> bool {
    0 <= at && at + sub.len() <= s.len() && s.subrange(at, at + sub.len()) == sub
}

/// Whether `sub` occurs in `s`.
pub open spec fn spec_contains_text(s: Seq<char>, sub: Seq<char>) -> bool {
    exists|at: int| occurs_at(s, sub, at)
}

/// Whether `sub` occurs in `s`.
pub fn contains_text(s: &str, sub: &str) -> (r: bool)
    ensures
        r == spec_contains_text(s@, sub@),
{
    let cs = chars_of(s);
    let ps = chars_of(sub);
    if ps.len() > cs.len() {
        assert forall|at: int| !occurs_at(s@, sub@, at) by {}
        return false;
    }
    let n: usize = cs.len();
    let last = n - ps.len();
    let mut at: usize = 0;
    loop
        invariant
            n == cs@.len(),
            cs@ == s@,
            ps@ == sub@,
            ps@.len() <= cs@.len(),
            last == cs@.len() - ps@.len(),
            at <= last,
            forall|k: int| 0 <= k < at ==> !occurs_at(s@, sub@, k),
        ensures
            forall|k: int| 0 <= k <= last ==> !occurs_at(s@, sub@, k),
        decreases last - at,
    {
        let mut j: usize = 0;
        let mut same = true;
        while j < ps.len()
            invariant
                n == cs@.len(),
                cs@ == s@,
                ps@ == sub@,
                ps@.len() <= cs@.len(),
                at <= last,
                last == cs@.len() - ps@.len(),
                j <= ps@.len(),
                same == (forall|k: int| 0 <= k < j ==> cs@[at + k] == ps@[k]),
            decreases ps@.len() - j,
        {
            if cs[at + j] != ps[j] {
                same = false;
            }
            j = j + 1;
        }
        if same {
            assert(cs@.subrange(at as int, at + ps@.len()) =~= ps@);
            assert(occurs_at(s@, sub@, at as int));
            return true;
        }
        proof {
            let k0 = choose|k: int| 0 <= k < ps@.len() && cs@[at + k] != ps@[k];
            if occurs_at(s@, sub@, at as int) {
                assert(s@.subrange(at as int, at + sub@.len())[k0] == cs@[at + k0]);
            }
        }
        if at == last {
            break;
        }
        at = at + 1;
    }
    assert forall|at2: int| !occurs_at(s@, sub@, at2) by {
        if 0 <= at2 && at2 + sub@.len() <= s@.len() {
            assert(at2 <= last);
        }
    }
    false
}

} // verus!
