//! Character-level helpers shared by the parsers and formatters.
//!
//! Text is modelled as `Seq<char>`; the executable functions work on
//! `Vec<char>` and are specified against the spec functions of this module.

use vstd::prelude::*;
use vstd::string::*;

verus! {

/// `String::push` appends one character.
pub assume_specification[ String::push ](s: &mut String, ch: char)
    ensures
        final(s)@ == old(s)@.push(ch),
;

// ---------------------------------------------------------------------------
// Character classes
// ---------------------------------------------------------------------------

pub open spec fn is_digit(c: char) -> bool {
    '0' <= c && c <= '9'
}

pub open spec fn is_upper(c: char) -> bool {
    'A' <= c && c <= 'Z'
}

pub open spec fn is_lower(c: char) -> bool {
    'a' <= c && c <= 'z'
}

pub open spec fn is_alnum(c: char) -> bool {
    is_digit(c) || is_upper(c) || is_lower(c)
}

/// The characters with the Unicode `White_Space` property.
pub open spec fn is_space(c: char) -> bool {
    let n = c as u32;
    n == 0x20 || (0x09 <= n && n <= 0x0d) || n == 0x85 || n == 0xa0 || n == 0x1680 || (0x2000 <= n
        && n <= 0x200a) || n == 0x2028 || n == 0x2029 || n == 0x202f || n == 0x205f || n
        == 0x3000
}

/// Space or horizontal tab.
pub open spec fn is_blank(c: char) -> bool {
    c == ' ' || c == '\t'
}

pub open spec fn digit_value(c: char) -> nat {
    (c as u32 - '0' as u32) as nat
}

pub open spec fn to_lower(c: char) -> char {
    if is_upper(c) {
        ((c as u32 + 32) as u8) as char
    } else {
        c
    }
}

pub fn char_is_digit(c: char) -> (b: bool)
    ensures
        b == is_digit(c),
{
    let n = c as u32;
    0x30 <= n && n <= 0x39
}

pub fn char_is_alnum(c: char) -> (b: bool)
    ensures
        b == is_alnum(c),
{
    let n = c as u32;
    (0x30 <= n && n <= 0x39) || (0x41 <= n && n <= 0x5a) || (0x61 <= n && n <= 0x7a)
}

pub fn char_is_space(c: char) -> (b: bool)
    ensures
        b == is_space(c),
{
    let n = c as u32;
    n == 0x20 || (0x09 <= n && n <= 0x0d) || n == 0x85 || n == 0xa0 || n == 0x1680 || (0x2000 <= n
        && n <= 0x200a) || n == 0x2028 || n == 0x2029 || n == 0x202f || n == 0x205f || n
        == 0x3000
}

pub fn char_to_lower(c: char) -> (r: char)
    ensures
        r == to_lower(c),
{
    let n = c as u32;
    if 0x41 <= n && n <= 0x5a {
        ((n + 32) as u8) as char
    } else {
        c
    }
}

// ---------------------------------------------------------------------------
// Conversions
// ---------------------------------------------------------------------------

/// The characters of `s`, in order.
pub fn chars_of(s: &str) -> (v: Vec<char>)
    ensures
        v@ == s@,
{
    let mut v: Vec<char> = Vec::new();
    for c in it: s.chars()
        invariant
            v@ == it.seq().take(it.index() as int),
            it.seq() == s@,
    {
        v.push(c);
    }
    v
}

/// The string made of the characters `v[lo..hi]`.
pub fn string_of_range(v: &Vec<char>, lo: usize, hi: usize) -> (s: String)
    requires
        lo <= hi <= v.len(),
    ensures
        s@ == v@.subrange(lo as int, hi as int),
{
    let mut s = String::new();
    let mut i: usize = lo;
    while i < hi
        invariant
            lo <= i <= hi <= v.len(),
            s@ == v@.subrange(lo as int, i as int),
        decreases hi - i,
    {
        s.push(v[i]);
        i += 1;
        assert(v@.subrange(lo as int, i as int) == v@.subrange(lo as int, i - 1).push(v@[i - 1]));
    }
    s
}

/// The string made of the characters of `v`.
pub fn string_of(v: &Vec<char>) -> (s: String)
    ensures
        s@ == v@,
{
    let s = string_of_range(v, 0, v.len());
    assert(v@.subrange(0, v.len() as int) == v@);
    s
}

/// A copy of `v[lo..hi]`.
pub fn slice_of(v: &Vec<char>, lo: usize, hi: usize) -> (r: Vec<char>)
    requires
        lo <= hi <= v.len(),
    ensures
        r@ == v@.subrange(lo as int, hi as int),
{
    let mut r: Vec<char> = Vec::new();
    let mut i: usize = lo;
    while i < hi
        invariant
            lo <= i <= hi <= v.len(),
            r@ == v@.subrange(lo as int, i as int),
        decreases hi - i,
    {
        r.push(v[i]);
        i += 1;
        assert(v@.subrange(lo as int, i as int) == v@.subrange(lo as int, i - 1).push(v@[i - 1]));
    }
    r
}

/// Appends the characters of `src` to `out`.
pub fn append_chars(out: &mut Vec<char>, src: &Vec<char>)
    ensures
        final(out)@ == old(out)@ + src@,
{
    let mut i: usize = 0;
    while i < src.len()
        invariant
            i <= src.len(),
            out@ == old(out)@ + src@.take(i as int),
        decreases src.len() - i,
    {
        out.push(src[i]);
        i += 1;
        assert(src@.take(i as int) == src@.take(i - 1).push(src@[i - 1]));
    }
    assert(src@.take(src.len() as int) == src@);
}

/// Appends the characters of `src` to `out`.
pub fn append_str(out: &mut Vec<char>, src: &str)
    ensures
        final(out)@ == old(out)@ + src@,
{
    let v = chars_of(src);
    append_chars(out, &v);
}

/// Whether two character vectors hold the same text.
pub fn chars_eq(a: &Vec<char>, b: &Vec<char>) -> (r: bool)
    ensures
        r == (a@ == b@),
{
    if a.len() != b.len() {
        return false;
    }
    let mut i: usize = 0;
    while i < a.len()
        invariant
            i <= a.len(),
            a.len() == b.len(),
            forall|j: int| 0 <= j < i ==> a@[j] == b@[j],
        decreases a.len() - i,
    {
        if a[i] != b[i] {
            return false;
        }
        i += 1;
    }
    assert(a@ =~= b@);
    true
}

/// Whether two strings hold the same text.
pub fn str_eq(a: &str, b: &str) -> (r: bool)
    ensures
        r == (a@ == b@),
{
    let va = chars_of(a);
    let vb = chars_of(b);
    chars_eq(&va, &vb)
}


// ---------------------------------------------------------------------------
// Scanning
// ---------------------------------------------------------------------------

/// A set of characters that a scan runs over.
#[derive(Debug)]
pub enum CharClass {
    /// Unicode white space.
    Space,
    /// Anything but white space.
    NonSpace,
    /// Space or horizontal tab.
    Blank,
    /// `0`-`9`.
    Digit,
    /// ASCII letters and digits, and `-`.
    Name,
    /// ASCII letters and digits, `.` and `-`.
    Host,
    /// ASCII letters and digits, `-`, `_` and `.`.
    User,
    /// Characters of a URI parameter: ASCII letters and digits, and any of
    /// `-_.!~*'()%+[]/:&$`.
    Param,
    /// Every character but the given one.
    Except(char),
}

/// The punctuation that may stand in a URI parameter.
pub open spec fn is_param_mark(c: char) -> bool {
    c == '-' || c == '_' || c == '.' || c == '!' || c == '~' || c == '*' || c == '\'' || c == '('
        || c == ')' || c == '%' || c == '+' || c == '[' || c == ']' || c == '/' || c == ':' || c
        == '&' || c == '$'
}

pub fn char_is_param_mark(c: char) -> (b: bool)
    ensures
        b == is_param_mark(c),
{
    c == '-' || c == '_' || c == '.' || c == '!' || c == '~' || c == '*' || c == '\'' || c == '('
        || c == ')' || c == '%' || c == '+' || c == '[' || c == ']' || c == '/' || c == ':' || c
        == '&' || c == '$'
}

impl CharClass {
    pub open spec fn has(self, c: char) -> bool {
        match self {
            CharClass::Space => is_space(c),
            CharClass::NonSpace => !is_space(c),
            CharClass::Blank => is_blank(c),
            CharClass::Digit => is_digit(c),
            CharClass::Name => is_alnum(c) || c == '-',
            CharClass::Host => is_alnum(c) || c == '.' || c == '-',
            CharClass::User => is_alnum(c) || c == '-' || c == '_' || c == '.',
            CharClass::Param => is_alnum(c) || is_param_mark(c),
            CharClass::Except(x) => c != x,
        }
    }

    pub fn contains(&self, c: char) -> (b: bool)
        ensures
            b == self.has(c),
    {
        match self {
            CharClass::Space => char_is_space(c),
            CharClass::NonSpace => !char_is_space(c),
            CharClass::Blank => c == ' ' || c == '\t',
            CharClass::Digit => char_is_digit(c),
            CharClass::Name => char_is_alnum(c) || c == '-',
            CharClass::Host => char_is_alnum(c) || c == '.' || c == '-',
            CharClass::User => char_is_alnum(c) || c == '-' || c == '_' || c == '.',
            CharClass::Param => char_is_alnum(c) || char_is_param_mark(c),
            CharClass::Except(x) => c != *x,
        }
    }
}

/// The first index at or after `from` whose character is outside `k`, or the
/// length of `s` when there is none.
pub open spec fn scan(s: Seq<char>, k: CharClass, from: int) -> int
    decreases s.len() - from,
{
    if 0 <= from < s.len() && k.has(s[from]) {
        scan(s, k, from + 1)
    } else {
        from
    }
}

/// The least `e` in `[lo, hi]` such that every character of `s[e..hi]` is in `k`.
pub open spec fn scan_back(s: Seq<char>, k: CharClass, lo: int, hi: int) -> int
    decreases hi - lo,
{
    if lo < hi <= s.len() && 0 < hi && k.has(s[hi - 1]) {
        scan_back(s, k, lo, hi - 1)
    } else {
        hi
    }
}

pub proof fn lemma_scan_is(s: Seq<char>, k: CharClass, from: int, r: int)
    requires
        0 <= from <= r <= s.len(),
        forall|j: int| from <= j < r ==> k.has(s[j]),
        r == s.len() || !k.has(s[r]),
    ensures
        scan(s, k, from) == r,
    decreases r - from,
{
    if from < r {
        lemma_scan_is(s, k, from + 1, r);
    }
}

pub proof fn lemma_scan_back_is(s: Seq<char>, k: CharClass, lo: int, hi: int, r: int)
    requires
        0 <= lo <= r <= hi <= s.len(),
        forall|j: int| r <= j < hi ==> k.has(s[j]),
        r == lo || !k.has(s[r - 1]),
    ensures
        scan_back(s, k, lo, hi) == r,
    decreases hi - r,
{
    if r < hi {
        lemma_scan_back_is(s, k, lo, hi - 1, r);
    }
}

/// A scan of a suffix is the scan of the whole from the suffix's start.
pub proof fn lemma_scan_skip(s: Seq<char>, k: CharClass, start: int, from: int)
    requires
        0 <= start <= s.len(),
        0 <= from <= s.len() - start,
    ensures
        scan(s.skip(start), k, from) + start == scan(s, k, start + from),
    decreases s.len() - start - from,
{
    if from < s.len() - start && k.has(s[start + from]) {
        lemma_scan_skip(s, k, start, from + 1);
    }
}

pub fn scan_class(v: &Vec<char>, k: &CharClass, from: usize) -> (r: usize)
    requires
        from <= v.len(),
    ensures
        r == scan(v@, *k, from as int),
        from <= r <= v.len(),
        forall|j: int| from <= j < r ==> k.has(v@[j]),
        r < v.len() ==> !k.has(v@[r as int]),
{
    let mut i: usize = from;
    while i < v.len() && k.contains(v[i])
        invariant
            from <= i <= v.len(),
            forall|j: int| from <= j < i ==> k.has(v@[j]),
        decreases v.len() - i,
    {
        i += 1;
    }
    proof {
        lemma_scan_is(v@, *k, from as int, i as int);
    }
    i
}

pub fn scan_class_back(v: &Vec<char>, k: &CharClass, lo: usize, hi: usize) -> (r: usize)
    requires
        lo <= hi <= v.len(),
    ensures
        r == scan_back(v@, *k, lo as int, hi as int),
        lo <= r <= hi,
{
    let mut i: usize = hi;
    while i > lo && k.contains(v[i - 1])
        invariant
            lo <= i <= hi <= v.len(),
            forall|j: int| i <= j < hi ==> k.has(v@[j]),
        decreases i - lo,
    {
        i -= 1;
    }
    proof {
        lemma_scan_back_is(v@, *k, lo as int, hi as int, i as int);
    }
    i
}

// ---------------------------------------------------------------------------
// Trimming
// ---------------------------------------------------------------------------

/// `s` without its leading and trailing white space.
pub open spec fn trim(s: Seq<char>) -> Seq<char> {
    let a = scan(s, CharClass::Space, 0);
    s.subrange(a, scan_back(s, CharClass::Space, a, s.len() as int))
}

pub fn trim_chars(v: &Vec<char>) -> (r: Vec<char>)
    ensures
        r@ == trim(v@),
{
    let a = scan_class(v, &CharClass::Space, 0);
    let b = scan_class_back(v, &CharClass::Space, a, v.len());
    slice_of(v, a, b)
}

// ---------------------------------------------------------------------------
// Splitting
// ---------------------------------------------------------------------------

/// The texts held by a sequence of character vectors.
pub open spec fn views(v: Seq<Vec<char>>) -> Seq<Seq<char>> {
    Seq::new(v.len(), |i: int| v[i]@)
}

/// The texts held by a sequence of strings.
pub open spec fn string_views(v: Seq<String>) -> Seq<Seq<char>> {
    Seq::new(v.len(), |i: int| v[i]@)
}

/// The pieces of `s` between occurrences of `c`; one more piece than there
/// are occurrences.
pub open spec fn split(s: Seq<char>, c: char) -> Seq<Seq<char>>
    decreases s.len(),
{
    let i = scan(s, CharClass::Except(c), 0);
    if 0 <= i < s.len() {
        seq![s.take(i)] + split(s.skip(i + 1), c)
    } else {
        seq![s]
    }
}

/// A split has at least one piece.
pub proof fn lemma_split_nonempty(s: Seq<char>, c: char)
    ensures
        split(s, c).len() > 0,
{
}

pub fn split_chars(v: &Vec<char>, c: char) -> (r: Vec<Vec<char>>)
    ensures
        views(r@) == split(v@, c),
{
    let mut parts: Vec<Vec<char>> = Vec::new();
    let mut start: usize = 0;
    let k = CharClass::Except(c);
    assert(v@.skip(0) == v@);
    loop
        invariant_except_break
            start <= v.len(),
            k == CharClass::Except(c),
            split(v@, c) == views(parts@) + split(v@.skip(start as int), c),
        ensures
            views(parts@) == split(v@, c),
        decreases v.len() - start,
    {
        let i = scan_class(v, &k, start);
        proof {
            lemma_scan_skip(v@, k, start as int, 0);
        }
        let ghost before = views(parts@);
        let ghost rest = v@.skip(start as int);
        if i < v.len() {
            parts.push(slice_of(v, start, i));
            assert(rest.take(i - start) == v@.subrange(start as int, i as int));
            assert(rest.skip(i - start + 1) == v@.skip(i + 1));
            assert(views(parts@) == before + seq![rest.take(i - start)]);
            start = i + 1;
        } else {
            parts.push(slice_of(v, start, i));
            assert(v@.subrange(start as int, i as int) == rest);
            assert(views(parts@) == before + seq![rest]);
            break;
        }
    }
    parts
}

/// The maximal runs of non-white-space characters of `s`, in order.
pub open spec fn words(s: Seq<char>) -> Seq<Seq<char>>
    decreases s.len(),
{
    let a = scan(s, CharClass::Space, 0);
    let b = scan(s, CharClass::NonSpace, a);
    if 0 <= a < b <= s.len() {
        seq![s.subrange(a, b)] + words(s.skip(b))
    } else {
        seq![]
    }
}

pub fn split_words(v: &Vec<char>) -> (r: Vec<Vec<char>>)
    ensures
        views(r@) == words(v@),
{
    let mut parts: Vec<Vec<char>> = Vec::new();
    let mut start: usize = 0;
    assert(v@.skip(0) == v@);
    loop
        invariant_except_break
            start <= v.len(),
            words(v@) == views(parts@) + words(v@.skip(start as int)),
        ensures
            views(parts@) == words(v@),
        decreases v.len() - start,
    {
        let a = scan_class(v, &CharClass::Space, start);
        let b = scan_class(v, &CharClass::NonSpace, a);
        let ghost rest = v@.skip(start as int);
        let ghost before = views(parts@);
        proof {
            lemma_scan_skip(v@, CharClass::Space, start as int, 0);
            lemma_scan_skip(v@, CharClass::NonSpace, start as int, a - start);
        }
        if a < b {
            parts.push(slice_of(v, a, b));
            assert(rest.subrange(a - start, b - start) == v@.subrange(a as int, b as int));
            assert(rest.skip(b - start) == v@.skip(b as int));
            assert(views(parts@) == before + seq![rest.subrange(a - start, b - start)]);
            start = b;
        } else {
            assert(views(parts@) + Seq::<Seq<char>>::empty() == views(parts@));
            break;
        }
    }
    parts
}

/// `s` without one trailing carriage return.
pub open spec fn strip_cr(s: Seq<char>) -> Seq<char> {
    if s.len() > 0 && s.last() == '\r' {
        s.drop_last()
    } else {
        s
    }
}

/// The lines of `s`: ended by a line feed, or by a carriage return and a line
/// feed; the last line need not be ended.
pub open spec fn lines(s: Seq<char>) -> Seq<Seq<char>>
    decreases s.len(),
{
    if s.len() == 0 {
        seq![]
    } else {
        let i = scan(s, CharClass::Except('\n'), 0);
        if 0 <= i < s.len() {
            seq![strip_cr(s.take(i))] + lines(s.skip(i + 1))
        } else {
            seq![s]
        }
    }
}

pub fn split_lines(v: &Vec<char>) -> (r: Vec<Vec<char>>)
    ensures
        views(r@) == lines(v@),
{
    let mut parts: Vec<Vec<char>> = Vec::new();
    let mut start: usize = 0;
    let k = CharClass::Except('\n');
    assert(v@.skip(0) == v@);
    while start < v.len()
        invariant
            start <= v.len(),
            k == CharClass::Except('\n'),
            lines(v@) == views(parts@) + lines(v@.skip(start as int)),
        decreases v.len() - start,
    {
        let i = scan_class(v, &k, start);
        proof {
            lemma_scan_skip(v@, k, start as int, 0);
        }
        let ghost before = views(parts@);
        let ghost rest = v@.skip(start as int);
        if i < v.len() {
            let end = if i > start && v[i - 1] == '\r' {
                i - 1
            } else {
                i
            };
            parts.push(slice_of(v, start, end));
            assert(rest.take(i - start) == v@.subrange(start as int, i as int));
            assert(strip_cr(rest.take(i - start)) == v@.subrange(start as int, end as int));
            assert(rest.skip(i - start + 1) == v@.skip(i + 1));
            assert(views(parts@) == before + seq![strip_cr(rest.take(i - start))]);
            start = i + 1;
        } else {
            parts.push(slice_of(v, start, i));
            assert(v@.subrange(start as int, i as int) == rest);
            assert(views(parts@) == before + seq![rest]);
            assert(lines(v@.skip(i as int)) == Seq::<Seq<char>>::empty());
            assert(views(parts@) + Seq::<Seq<char>>::empty() == views(parts@));
            start = i;
        }
    }
    assert(views(parts@) + Seq::<Seq<char>>::empty() == views(parts@));
    parts
}

/// The texts of `parts` with `sep` between neighbours.
pub open spec fn join(parts: Seq<Seq<char>>, sep: Seq<char>) -> Seq<char>
    decreases parts.len(),
{
    if parts.len() == 0 {
        Seq::empty()
    } else if parts.len() == 1 {
        parts[0]
    } else {
        join(parts.drop_last(), sep) + sep + parts.last()
    }
}

// ---------------------------------------------------------------------------
// Searching
// ---------------------------------------------------------------------------

/// Whether `pat` stands in `s` at index `i`.
pub open spec fn occurs_at(s: Seq<char>, pat: Seq<char>, i: int) -> bool {
    0 <= i && i + pat.len() <= s.len() && s.subrange(i, i + pat.len()) == pat
}

pub open spec fn ends_with(s: Seq<char>, pat: Seq<char>) -> bool {
    occurs_at(s, pat, s.len() - pat.len())
}

pub open spec fn contains_text(s: Seq<char>, pat: Seq<char>) -> bool {
    exists|i: int| occurs_at(s, pat, i)
}

/// Whether `i` is the first index at or after `from` where `pat` stands in `s`.
pub open spec fn is_first_occurrence(s: Seq<char>, pat: Seq<char>, from: int, i: int) -> bool {
    from <= i && occurs_at(s, pat, i) && forall|j: int| from <= j < i ==> !occurs_at(s, pat, j)
}

pub fn matches_at(v: &Vec<char>, pat: &Vec<char>, i: usize) -> (b: bool)
    ensures
        b == occurs_at(v@, pat@, i as int),
{
    if pat.len() > v.len() || i > v.len() - pat.len() {
        return false;
    }
    let mut j: usize = 0;
    while j < pat.len()
        invariant
            j <= pat.len(),
            i + pat.len() <= v.len(),
            forall|t: int| 0 <= t < j ==> v@[i + t] == pat@[t],
        decreases pat.len() - j,
    {
        if v[i + j] != pat[j] {
            assert(v@.subrange(i as int, i + pat.len())[j as int] == v@[i + j]);
            return false;
        }
        j += 1;
    }
    assert(v@.subrange(i as int, i + pat.len()) =~= pat@);
    true
}

pub fn find_text(v: &Vec<char>, pat: &Vec<char>, from: usize) -> (r: Option<usize>)
    ensures
        match r {
            Some(i) => is_first_occurrence(v@, pat@, from as int, i as int),
            None => forall|j: int| from <= j ==> !occurs_at(v@, pat@, j),
        },
{
    let mut i: usize = from;
    while i < v.len()
        invariant
            from <= i,
            forall|j: int| from <= j < i ==> !occurs_at(v@, pat@, j),
        decreases v.len() - i,
    {
        if matches_at(v, pat, i) {
            return Some(i);
        }
        i += 1;
    }
    if i == v.len() && matches_at(v, pat, i) {
        return Some(i);
    }
    None
}

/// The first index at or after `from` where `pat` stands in `s`, or -1.
pub open spec fn find_from(s: Seq<char>, pat: Seq<char>, from: int) -> int
    decreases s.len() - from,
{
    if from < 0 || from + pat.len() > s.len() {
        -1
    } else if occurs_at(s, pat, from) {
        from
    } else if from < s.len() {
        find_from(s, pat, from + 1)
    } else {
        -1
    }
}

pub proof fn lemma_find_from(s: Seq<char>, pat: Seq<char>, from: int, i: int)
    requires
        0 <= from <= i,
        forall|j: int| from <= j < i ==> !occurs_at(s, pat, j),
        occurs_at(s, pat, i) || i + pat.len() > s.len(),
    ensures
        find_from(s, pat, from) == (if occurs_at(s, pat, i) {
            i
        } else {
            -1
        }),
    decreases i - from,
{
    if from < i && from + pat.len() <= s.len() {
        lemma_find_from(s, pat, from + 1, i);
    }
}

/// The first index at or after `from` where `pat` stands in `v`.
pub fn find_first(v: &Vec<char>, pat: &Vec<char>, from: usize) -> (r: Option<usize>)
    ensures
        match r {
            Some(i) => find_from(v@, pat@, from as int) == i && from <= i && i + pat.len()
                <= v.len() && occurs_at(v@, pat@, i as int),
            None => find_from(v@, pat@, from as int) == -1,
        },
{
    let r = find_text(v, pat, from);
    proof {
        match r {
            Some(i) => {
                lemma_find_from(v@, pat@, from as int, i as int);
            },
            None => {
                if from + pat.len() <= v.len() {
                    lemma_find_from(v@, pat@, from as int, v.len() - pat.len() + 1);
                }
            },
        }
    }
    r
}

pub fn has_text(v: &Vec<char>, pat: &Vec<char>) -> (b: bool)
    ensures
        b == contains_text(v@, pat@),
{
    match find_text(v, pat, 0) {
        Some(i) => true,
        None => false,
    }
}

// ---------------------------------------------------------------------------
// Case
// ---------------------------------------------------------------------------

/// Whether `a` and `b` are equal up to the case of ASCII letters.
pub open spec fn eq_ignore_case(a: Seq<char>, b: Seq<char>) -> bool {
    a.len() == b.len() && forall|i: int| 0 <= i < a.len() ==> to_lower(a[i]) == to_lower(b[i])
}

pub fn chars_eq_ignore_case(a: &Vec<char>, b: &Vec<char>) -> (r: bool)
    ensures
        r == eq_ignore_case(a@, b@),
{
    if a.len() != b.len() {
        return false;
    }
    let mut i: usize = 0;
    while i < a.len()
        invariant
            i <= a.len(),
            a.len() == b.len(),
            forall|j: int| 0 <= j < i ==> to_lower(a@[j]) == to_lower(b@[j]),
        decreases a.len() - i,
    {
        if char_to_lower(a[i]) != char_to_lower(b[i]) {
            return false;
        }
        i += 1;
    }
    true
}

pub fn str_eq_ignore_case(a: &str, b: &str) -> (r: bool)
    ensures
        r == eq_ignore_case(a@, b@),
{
    let va = chars_of(a);
    let vb = chars_of(b);
    chars_eq_ignore_case(&va, &vb)
}

// ---------------------------------------------------------------------------
// Texts that may be absent
// ---------------------------------------------------------------------------

/// The text of a string slice that may be absent.
pub open spec fn opt_str(o: Option<&str>) -> Option<Seq<char>> {
    match o {
        Some(s) => Some(s@),
        None => None,
    }
}

/// The text of a string that may be absent.
pub open spec fn opt_text(o: Option<String>) -> Option<Seq<char>> {
    match o {
        Some(s) => Some(s@),
        None => None,
    }
}

/// The text, or the empty text where it is absent.
pub open spec fn or_empty(o: Option<Seq<char>>) -> Seq<char> {
    match o {
        Some(s) => s,
        None => Seq::empty(),
    }
}

} // verus!
