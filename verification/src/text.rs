//! Character-level helpers shared by the transcript filter and the device list.
use vstd::prelude::*;

verus! {

/// The characters of `s`, in order.
pub fn chars_of(s: &str) -> (out: Vec<char>)
    ensures
        out@ == s@,
{
    let mut out: Vec<char> = Vec::new();
    for c in it: s.chars()
        invariant
            out@ == it.seq().take(it.index() as int),
            it.seq() == s@,
    {
        out.push(c);
    }
    out
}

/// The views of a list of texts.
pub open spec fn views(v: Seq<String>) -> Seq<Seq<char>> {
    v.map_values(|s: String| s@)
}

/// Unicode `White_Space`: the characters that `char::is_whitespace`
/// accepts and that `str::trim` removes.
pub open spec fn is_white_space(c: char) -> bool {
    let u = c as u32;
    ||| 0x09 <= u <= 0x0D
    ||| u == 0x20
    ||| u == 0x85
    ||| u == 0xA0
    ||| u == 0x1680
    ||| 0x2000 <= u <= 0x200A
    ||| u == 0x2028
    ||| u == 0x2029
    ||| u == 0x202F
    ||| u == 0x205F
    ||| u == 0x3000
}

/// Executable `White_Space` test.
pub fn is_whitespace(c: char) -> (b: bool)
    ensures
        b == is_white_space(c),
{
    let u = c as u32;
    (0x09 <= u && u <= 0x0D) || u == 0x20 || u == 0x85 || u == 0xA0 || u == 0x1680
        || (0x2000 <= u && u <= 0x200A) || u == 0x2028 || u == 0x2029 || u == 0x202F
        || u == 0x205F || u == 0x3000
}

/// Which characters a strip removes from the two ends of a text.
#[derive(Clone, Copy, Debug, PartialEq, Eq)]
pub enum Strip {
    /// Unicode white space, as `str::trim` removes it.
    WhiteSpace,
    /// Full stops and plain spaces.
    DotOrSpace,
}

/// Whether `kind` strips the character `c`.
pub open spec fn strips(kind: Strip, c: char) -> bool {
    match kind {
        Strip::WhiteSpace => is_white_space(c),
        Strip::DotOrSpace => c == '.' || c == ' ',
    }
}

/// `s` without the stripped characters at its front.
pub open spec fn strip_front(kind: Strip, s: Seq<char>) -> Seq<char>
    decreases s.len(),
{
    if s.len() > 0 && strips(kind, s[0]) {
        strip_front(kind, s.drop_first())
    } else {
        s
    }
}

/// `s` without the stripped characters at its back.
pub open spec fn strip_back(kind: Strip, s: Seq<char>) -> Seq<char>
    decreases s.len(),
{
    if s.len() > 0 && strips(kind, s.last()) {
        strip_back(kind, s.drop_last())
    } else {
        s
    }
}

/// `s` without the stripped characters at either end.
pub open spec fn strip_both(kind: Strip, s: Seq<char>) -> Seq<char> {
    strip_back(kind, strip_front(kind, s))
}

/// After stripping the front, the text is empty or starts with a kept
/// character.
pub proof fn lemma_strip_front_ends(kind: Strip, s: Seq<char>)
    ensures
        strip_front(kind, s).len() == 0 || !strips(kind, strip_front(kind, s)[0]),
    decreases s.len(),
{
    if s.len() > 0 && strips(kind, s[0]) {
        lemma_strip_front_ends(kind, s.drop_first());
    }
}

/// Stripping the back keeps a prefix of the text, which is empty or ends
/// with a kept character.
pub proof fn lemma_strip_back_ends(kind: Strip, s: Seq<char>)
    ensures
        strip_back(kind, s) == s.take(strip_back(kind, s).len() as int),
        strip_back(kind, s).len() <= s.len(),
        strip_back(kind, s).len() == 0 || !strips(kind, strip_back(kind, s).last()),
    decreases s.len(),
{
    if s.len() > 0 && strips(kind, s.last()) {
        lemma_strip_back_ends(kind, s.drop_last());
        let r = strip_back(kind, s.drop_last());
        assert(s.drop_last().take(r.len() as int) == s.take(r.len() as int));
    } else {
        assert(s.take(s.len() as int) == s);
    }
}

/// A stripped text neither starts nor ends with a stripped character.
pub proof fn lemma_strip_both_ends(kind: Strip, s: Seq<char>)
    ensures
        strip_both(kind, s).len() == 0 || (!strips(kind, strip_both(kind, s)[0]) && !strips(
            kind,
            strip_both(kind, s).last(),
        )),
{
    lemma_strip_front_ends(kind, s);
    lemma_strip_back_ends(kind, strip_front(kind, s));
    let f = strip_front(kind, s);
    let r = strip_both(kind, s);
    if r.len() > 0 {
        assert(r[0] == f.take(r.len() as int)[0]);
    }
}

/// Executable form of `strips`.
pub fn strips_char(kind: Strip, c: char) -> (b: bool)
    ensures
        b == strips(kind, c),
{
    match kind {
        Strip::WhiteSpace => is_whitespace(c),
        Strip::DotOrSpace => c == '.' || c == ' ',
    }
}

/// The bounds `(start, end)` of `strip_both(kind, s@)` inside `s`.
pub fn strip_bounds(kind: Strip, s: &Vec<char>) -> (r: (usize, usize))
    ensures
        r.0 <= r.1 <= s.len(),
        s@.subrange(r.0 as int, r.1 as int) == strip_both(kind, s@),
{
    let n = s.len();
    let mut start: usize = 0;
    assert(s@.subrange(0, n as int) == s@);
    while start < n && strips_char(kind, s[start])
        invariant
            start <= n,
            n == s.len(),
            strip_front(kind, s@) == strip_front(kind, s@.subrange(start as int, n as int)),
        decreases n - start,
    {
        assert(s@.subrange(start as int, n as int).drop_first() == s@.subrange(start + 1, n as int));
        start = start + 1;
    }
    assert(strip_front(kind, s@) == s@.subrange(start as int, n as int));
    let mut end: usize = n;
    while end > start && strips_char(kind, s[end - 1])
        invariant
            start <= end <= n,
            n == s.len(),
            strip_front(kind, s@) == s@.subrange(start as int, n as int),
            strip_both(kind, s@) == strip_back(kind, s@.subrange(start as int, end as int)),
        decreases end - start,
    {
        assert(s@.subrange(start as int, end as int).drop_last() == s@.subrange(start as int, end - 1));
        end = end - 1;
    }
    (start, end)
}

/// ASCII upper-case letters mapped to lower case; every other character kept.
pub open spec fn ascii_lower(c: char) -> char {
    if 'A' <= c <= 'Z' {
        ((c as u32) + 32) as char
    } else {
        c
    }
}

/// Executable form of `ascii_lower`.
pub fn to_ascii_lower(c: char) -> (r: char)
    ensures
        r == ascii_lower(c),
{
    if 'A' <= c && c <= 'Z' {
        let u: u8 = ((c as u32) + 32) as u8;
        u as char
    } else {
        c
    }
}

/// Whether the characters `a[from..to]` spell out `lit`.
pub fn range_equals(a: &Vec<char>, from: usize, to: usize, lit: &str) -> (b: bool)
    requires
        from <= to <= a.len(),
    ensures
        b == (a@.subrange(from as int, to as int) == lit@),
{
    let n = lit.unicode_len();
    if to - from != n {
        return false;
    }
    let mut i: usize = 0;
    while i < n
        invariant
            from <= to <= a.len(),
            to - from == n,
            n == lit@.len(),
            i <= n,
            forall|j: int| 0 <= j < i ==> a@[from + j] == lit@[j],
        decreases n - i,
    {
        if a[from + i] != lit.get_char(i) {
            assert(a@.subrange(from as int, to as int)[i as int] != lit@[i as int]);
            return false;
        }
        i = i + 1;
    }
    assert(a@.subrange(from as int, to as int) =~= lit@);
    true
}

/// Lexicographic order of texts by character code (the order in which
/// `String::cmp` puts UTF-8 text): `a` comes no later than `b`.
pub open spec fn chars_le(a: Seq<char>, b: Seq<char>) -> bool
    decreases a.len(),
{
    if a.len() == 0 {
        true
    } else if b.len() == 0 {
        false
    } else if a[0] != b[0] {
        (a[0] as int) < (b[0] as int)
    } else {
        chars_le(a.drop_first(), b.drop_first())
    }
}

/// Whether `a` comes no later than `b` (see `chars_le`).
pub fn lex_le(a: &Vec<char>, b: &Vec<char>) -> (r: bool)
    ensures
        r == chars_le(a@, b@),
{
    let mut i: usize = 0;
    assert(a@.skip(0) == a@);
    assert(b@.skip(0) == b@);
    while i < a.len() && i < b.len() && a[i] == b[i]
        invariant
            i <= a.len(),
            i <= b.len(),
            chars_le(a@, b@) == chars_le(a@.skip(i as int), b@.skip(i as int)),
        decreases a.len() - i,
    {
        assert(a@.skip(i as int).drop_first() == a@.skip(i + 1));
        assert(b@.skip(i as int).drop_first() == b@.skip(i + 1));
        i = i + 1;
    }
    if i == a.len() {
        true
    } else if i == b.len() {
        false
    } else {
        a[i] < b[i]
    }
}

/// Any two texts are ordered one way or the other.
pub proof fn lemma_chars_le_total(a: Seq<char>, b: Seq<char>)
    ensures
        chars_le(a, b) || chars_le(b, a),
    decreases a.len(),
{
    if a.len() > 0 && b.len() > 0 && a[0] == b[0] {
        lemma_chars_le_total(a.drop_first(), b.drop_first());
    }
}

/// The order is transitive.
pub proof fn lemma_chars_le_transitive(a: Seq<char>, b: Seq<char>, c: Seq<char>)
    requires
        chars_le(a, b),
        chars_le(b, c),
    ensures
        chars_le(a, c),
    decreases a.len(),
{
    if a.len() > 0 && b.len() > 0 && c.len() > 0 && a[0] == b[0] && b[0] == c[0] {
        lemma_chars_le_transitive(a.drop_first(), b.drop_first(), c.drop_first());
    }
}

} // verus!
