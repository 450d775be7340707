//! Operations on text, specified over sequences of characters.
use vstd::prelude::*;
use vstd::slice::slice_subrange;

verus! {

broadcast use vstd::string::group_string_axioms;

/// `String::push`: the character is appended, nothing else changes.
pub assume_specification[ String::push ](s: &mut String, c: char)
    ensures
        final(s)@ == old(s)@.push(c),
;

// ---------------------------------------------------------------------------
// Characters
// ---------------------------------------------------------------------------
/// The characters with the Unicode property `White_Space`.
pub open spec fn is_white_space(c: char) -> bool {
    let n = c as u32;
    ||| 0x09 <= n <= 0x0d
    ||| n == 0x20
    ||| n == 0x85
    ||| n == 0xa0
    ||| n == 0x1680
    ||| 0x2000 <= n <= 0x200a
    ||| n == 0x2028
    ||| n == 0x2029
    ||| n == 0x202f
    ||| n == 0x205f
    ||| n == 0x3000
}

/// Whether `c` is white space.
pub fn white_space(c: char) -> (r: bool)
    ensures
        r == is_white_space(c),
{
    let n: u32 = c as u32;
    (0x09 <= n && n <= 0x0d) || n == 0x20 || n == 0x85 || n == 0xa0 || n == 0x1680 || (0x2000 <= n
        && n <= 0x200a) || n == 0x2028 || n == 0x2029 || n == 0x202f || n == 0x205f || n == 0x3000
}

/// `c`, with the ASCII capital letters made small.
pub open spec fn ascii_lower(c: char) -> char {
    if 'A' <= c <= 'Z' {
        (c as u32 + 32) as char
    } else {
        c
    }
}

/// `c`, with the ASCII capital letters made small.
pub fn lower_ascii(c: char) -> (r: char)
    ensures
        r == ascii_lower(c),
{
    if 'A' <= c && c <= 'Z' {
        ((c as u8) + 32) as char
    } else {
        c
    }
}

/// `s` with every ASCII capital letter made small.
pub open spec fn ascii_lowercase(s: Seq<char>) -> Seq<char> {
    s.map_values(|c: char| ascii_lower(c))
}

/// `s` in lower case by the Unicode rules, for a text that is not all ASCII.
pub uninterp spec fn unicode_lowercase(s: Seq<char>) -> Seq<char>;

/// `s` in lower case.
pub open spec fn lowercase(s: Seq<char>) -> Seq<char> {
    if vstd::utf8::is_ascii_chars(s) {
        ascii_lowercase(s)
    } else {
        unicode_lowercase(s)
    }
}

/// `str::to_lowercase`: on a text that is all ASCII the ASCII capital letters are
/// made small; on any other the result is a function of the text. As each character
/// becomes one or more, only the empty text becomes empty.
#[verifier::external_body]
pub(crate) fn to_lowercase(s: &str) -> (r: String)
    ensures
        r@ == if vstd::utf8::is_ascii_chars(s@) {
            ascii_lowercase(s@)
        } else {
            unicode_lowercase(s@)
        },
        r@.len() == 0 <==> s@.len() == 0,
{
    s.to_lowercase()
}

/// The text that `bytes` stand for, with replacement characters, where they are not
/// UTF-8.
pub uninterp spec fn repaired_text(bytes: Seq<u8>) -> Seq<char>;

/// The text that `bytes` stand for.
pub open spec fn lossy_text(bytes: Seq<u8>) -> Seq<char> {
    if vstd::utf8::valid_utf8(bytes) {
        vstd::utf8::decode_utf8(bytes)
    } else {
        repaired_text(bytes)
    }
}

/// `String::from_utf8_lossy`: valid UTF-8 is decoded; of any other bytes the text is
/// a function.
#[verifier::external_body]
pub(crate) fn from_utf8_lossy(bytes: &[u8]) -> (r: String)
    ensures
        r@ == if vstd::utf8::valid_utf8(bytes@) {
            vstd::utf8::decode_utf8(bytes@)
        } else {
            repaired_text(bytes@)
        },
{
    String::from_utf8_lossy(bytes).into_owned()
}

// ---------------------------------------------------------------------------
// Building and comparing
// ---------------------------------------------------------------------------
/// The characters of `s`, one element each.
pub fn chars_of(s: &str) -> (r: Vec<char>)
    ensures
        r@ == s@,
{
    let mut out: Vec<char> = Vec::new();
    for c in it: s.chars()
        invariant
            out@ == it.seq().take(it.index()),
            it.seq() == s@,
    {
        out.push(c);
        proof {
            assert(it.seq().take(it.index() + 1) =~= it.seq().take(it.index()).push(c));
        }
    }
    proof {
        assert(s@.take(s@.len() as int) =~= s@);
    }
    out
}

/// The text made of the characters `cs`.
pub fn string_of(cs: &[char]) -> (r: String)
    ensures
        r@ == cs@,
{
    let mut out = String::new();
    let mut i: usize = 0;
    while i < cs.len()
        invariant
            i <= cs@.len(),
            out@ == cs@.take(i as int),
        decreases cs@.len() - i,
    {
        out.push(cs[i]);
        proof {
            assert(cs@.take(i + 1) =~= cs@.take(i as int).push(cs@[i as int]));
        }
        i = i + 1;
    }
    proof {
        assert(cs@.take(cs@.len() as int) =~= cs@);
    }
    out
}

/// Whether `a` and `b` are the same characters.
pub fn same_chars(a: &[char], b: &[char]) -> (r: bool)
    ensures
        r == (a@ == b@),
{
    if a.len() != b.len() {
        return false;
    }
    let mut i: usize = 0;
    while i < a.len()
        invariant
            i <= a@.len(),
            a@.len() == b@.len(),
            forall|k: int| 0 <= k < i ==> a@[k] == b@[k],
        decreases a@.len() - i,
    {
        if a[i] != b[i] {
            return false;
        }
        i = i + 1;
    }
    proof {
        assert(a@ =~= b@);
    }
    true
}

/// Whether `a` and `b` are the same text.
pub fn same_text(a: &str, b: &str) -> (r: bool)
    ensures
        r == (a@ == b@),
{
    same_chars(chars_of(a).as_slice(), chars_of(b).as_slice())
}

/// Whether `a` and `b` are the same text up to the case of ASCII letters.
pub fn same_text_ignoring_ascii_case(a: &str, b: &str) -> (r: bool)
    ensures
        r == (ascii_lowercase(a@) == ascii_lowercase(b@)),
{
    let xs = chars_of(a);
    let ys = chars_of(b);
    if xs.len() != ys.len() {
        proof {
            assert(ascii_lowercase(a@).len() != ascii_lowercase(b@).len());
        }
        return false;
    }
    let mut i: usize = 0;
    while i < xs.len()
        invariant
            i <= xs@.len(),
            xs@.len() == ys@.len(),
            xs@ == a@,
            ys@ == b@,
            forall|k: int| 0 <= k < i ==> ascii_lower(xs@[k]) == ascii_lower(ys@[k]),
        decreases xs@.len() - i,
    {
        if lower_ascii(xs[i]) != lower_ascii(ys[i]) {
            proof {
                assert(ascii_lowercase(a@)[i as int] != ascii_lowercase(b@)[i as int]);
            }
            return false;
        }
        i = i + 1;
    }
    proof {
        assert(ascii_lowercase(a@) =~= ascii_lowercase(b@));
    }
    true
}

/// Whether `s` begins with `prefix`.
pub fn has_prefix(s: &[char], prefix: &str) -> (r: bool)
    ensures
        r == prefix@.is_prefix_of(s@),
{
    let p = chars_of(prefix);
    if p.len() > s.len() {
        return false;
    }
    same_chars(p.as_slice(), slice_subrange(s, 0, p.len()))
}

// ---------------------------------------------------------------------------
// Searching
// ---------------------------------------------------------------------------
/// `pattern` stands in `s` at position `i`.
pub open spec fn occurs_at(s: Seq<char>, pattern: Seq<char>, i: int) -> bool {
    &&& 0 <= i
    &&& i + pattern.len() <= s.len()
    &&& s.subrange(i, i + pattern.len()) == pattern
}

/// `pattern` stands somewhere in `s`.
pub open spec fn contains_text(s: Seq<char>, pattern: Seq<char>) -> bool {
    exists|i: int| occurs_at(s, pattern, i)
}

/// The first position at or behind `from` at which `pattern` stands in `s`.
pub open spec fn find_from(s: Seq<char>, pattern: Seq<char>, from: int) -> Option<int>
    decreases s.len() + 1 - from,
{
    if from + pattern.len() > s.len() {
        None
    } else if occurs_at(s, pattern, from) {
        Some(from)
    } else {
        find_from(s, pattern, from + 1)
    }
}

/// The first position at which `pattern` stands in `s`.
pub open spec fn find_text(s: Seq<char>, pattern: Seq<char>) -> Option<int> {
    find_from(s, pattern, 0)
}

/// What `find_from` finds is the first occurrence, and it finds one if there is one.
pub proof fn lemma_find_from(s: Seq<char>, pattern: Seq<char>, from: int)
    requires
        0 <= from,
    ensures
        match find_from(s, pattern, from) {
            Some(i) => {
                &&& from <= i
                &&& occurs_at(s, pattern, i)
                &&& forall|j: int| from <= j < i ==> !occurs_at(s, pattern, j)
            },
            None => forall|j: int| from <= j ==> !occurs_at(s, pattern, j),
        },
    decreases s.len() + 1 - from,
{
    if from + pattern.len() > s.len() {
    } else if occurs_at(s, pattern, from) {
    } else {
        lemma_find_from(s, pattern, from + 1);
    }
}

/// A search succeeds exactly where the pattern occurs.
pub proof fn lemma_find_iff_contains(s: Seq<char>, pattern: Seq<char>)
    ensures
        find_text(s, pattern) is Some <==> contains_text(s, pattern),
{
    lemma_find_from(s, pattern, 0);
    if find_text(s, pattern) is Some {
        assert(occurs_at(s, pattern, find_text(s, pattern)->0));
    }
}

/// The position of the first occurrence of `pattern` in `s`.
pub fn find(s: &[char], pattern: &str) -> (r: Option<usize>)
    ensures
        match r {
            Some(i) => find_text(s@, pattern@) == Some(i as int) && i + pattern@.len() <= s@.len(),
            None => find_text(s@, pattern@) is None,
        },
{
    let p = chars_of(pattern);
    if p.len() > s.len() {
        return None;
    }
    let last: usize = s.len() - p.len();
    let mut i: usize = 0;
    loop
        invariant
            p@ == pattern@,
            i <= last,
            last + p.len() == s.len(),
            find_text(s@, pattern@) == find_from(s@, pattern@, i as int),
        decreases last - i,
    {
        if same_chars(slice_subrange(s, i, i + p.len()), p.as_slice()) {
            return Some(i);
        }
        if i == last {
            proof {
                assert(find_from(s@, pattern@, i + 1) is None);
            }
            return None;
        }
        i = i + 1;
    }
}

/// Whether `pattern` stands somewhere in `s`.
pub fn contains(s: &str, pattern: &str) -> (r: bool)
    ensures
        r == contains_text(s@, pattern@),
{
    proof {
        lemma_find_iff_contains(s@, pattern@);
    }
    let cs = chars_of(s);
    match find(cs.as_slice(), pattern) {
        Some(_) => true,
        None => false,
    }
}


// ---------------------------------------------------------------------------
// Cutting up
// ---------------------------------------------------------------------------
/// The number of characters of `s` before the first `c`, or all of them.
pub open spec fn until(s: Seq<char>, c: char) -> nat
    decreases s.len(),
{
    if s.len() == 0 || s[0] == c {
        0
    } else {
        1 + until(s.drop_first(), c)
    }
}

/// `until` stops at the first `c`.
pub proof fn lemma_until(s: Seq<char>, c: char)
    ensures
        until(s, c) <= s.len(),
        until(s, c) < s.len() ==> s[until(s, c) as int] == c,
        forall|i: int| 0 <= i < until(s, c) ==> s[i] != c,
    decreases s.len(),
{
    if s.len() == 0 || s[0] == c {
    } else {
        lemma_until(s.drop_first(), c);
        assert forall|i: int| 0 <= i < until(s, c) implies s[i] != c by {
            if i > 0 {
                assert(s[i] == s.drop_first()[i - 1]);
            }
        }
    }
}

/// A text without `c` before position `n`, and with `c` there, is cut at `n`.
pub proof fn lemma_until_is(s: Seq<char>, c: char, n: int)
    requires
        0 <= n <= s.len(),
        n < s.len() ==> s[n] == c,
        forall|i: int| 0 <= i < n ==> s[i] != c,
    ensures
        until(s, c) == n,
{
    lemma_until(s, c);
}

/// The position of the first `c` at or behind `start`, or the end.
pub fn scan_until(s: &[char], start: usize, c: char) -> (r: usize)
    requires
        start <= s@.len(),
    ensures
        start <= r <= s@.len(),
        r - start == until(s@.skip(start as int), c),
{
    let mut i: usize = start;
    while i < s.len() && s[i] != c
        invariant
            start <= i <= s@.len(),
            forall|k: int| start <= k < i ==> s@[k] != c,
        decreases s@.len() - i,
    {
        i = i + 1;
    }
    proof {
        lemma_until_is(s@.skip(start as int), c, i - start);
    }
    i
}

/// The texts that the elements of `v` hold.
pub open spec fn texts(v: Seq<String>) -> Seq<Seq<char>> {
    v.map_values(|t: String| t@)
}

/// The texts that the elements of `v` hold.
pub open spec fn rows(v: Seq<Vec<char>>) -> Seq<Seq<char>> {
    v.map_values(|t: Vec<char>| t@)
}

/// `s` without a carriage return at its end.
pub open spec fn strip_return(s: Seq<char>) -> Seq<char> {
    if s.len() > 0 && s.last() == '\r' {
        s.drop_last()
    } else {
        s
    }
}

/// The lines of `s`: each ends at a line feed, or at a carriage return and a
/// line feed, or at the end of the text; an empty rest is no line.
pub open spec fn lines(s: Seq<char>) -> Seq<Seq<char>>
    decreases s.len(),
{
    let n = until(s, '\n');
    if s.len() == 0 {
        Seq::empty()
    } else if n >= s.len() {
        seq![s]
    } else {
        seq![strip_return(s.take(n as int))] + lines(s.skip(n as int + 1))
    }
}

/// The parts of `s` between the separators `c`; there is always one more part
/// than there are separators.
pub open spec fn split(s: Seq<char>, c: char) -> Seq<Seq<char>>
    decreases s.len(),
{
    let n = until(s, c);
    if n >= s.len() {
        seq![s]
    } else {
        seq![s.take(n as int)] + split(s.skip(n as int + 1), c)
    }
}

/// The parts of two texts with a separator between them are the parts of the one
/// and then those of the other.
pub proof fn lemma_split_concat(a: Seq<char>, b: Seq<char>, c: char)
    ensures
        split(a + seq![c] + b, c) == split(a, c) + split(b, c),
    decreases a.len(),
{
    let whole = a + seq![c] + b;
    let n = until(a, c);
    lemma_until(a, c);
    assert(forall|i: int| 0 <= i < a.len() ==> whole[i] == a[i]);
    lemma_until_is(whole, c, n as int);
    if n >= a.len() {
        assert(whole.take(n as int) =~= a);
        assert(whole.skip(n as int + 1) =~= b);
    } else {
        let rest = a.skip(n as int + 1);
        assert(whole.take(n as int) =~= a.take(n as int));
        assert(whole.skip(n as int + 1) =~= rest + seq![c] + b);
        lemma_split_concat(rest, b, c);
        assert(split(whole, c) =~= split(a, c) + split(b, c));
    }
}

/// A text without the separator is its only part.
pub proof fn lemma_split_single(s: Seq<char>, c: char)
    requires
        !s.contains(c),
    ensures
        split(s, c) == seq![s],
{
    assert forall|i: int| 0 <= i < s.len() implies s[i] != c by {
        if s[i] == c {
            assert(s.contains(c));
        }
    }
    lemma_until_is(s, c, s.len() as int);
}

/// The lines of `s`.
pub fn split_lines(s: &str) -> (r: Vec<Vec<char>>)
    ensures
        rows(r@) == lines(s@),
{
    let cs = chars_of(s);
    let mut out: Vec<Vec<char>> = Vec::new();
    let mut start: usize = 0;
    proof {
        assert(cs@.skip(0) =~= cs@);
        assert(rows(out@) + lines(s@) =~= lines(s@));
    }
    while start < cs.len()
        invariant
            cs@ == s@,
            start <= cs@.len(),
            rows(out@) + lines(cs@.skip(start as int)) == lines(s@),
        decreases cs@.len() - start,
    {
        let ghost rest = cs@.skip(start as int);
        let ghost before = out@;
        let end = scan_until(cs.as_slice(), start, '\n');
        let mut stop: usize = end;
        if end < cs.len() && start < end && cs[end - 1] == '\r' {
            stop = end - 1;
        }
        let line = vstd::slice::slice_to_vec(slice_subrange(cs.as_slice(), start, stop));
        out.push(line);
        proof {
            let n = until(rest, '\n');
            assert(rows(out@) =~= rows(before).push(line@));
            if end < cs@.len() {
                assert(rest.take(n as int) =~= cs@.subrange(start as int, end as int));
                assert(line@ =~= strip_return(rest.take(n as int)));
                assert(rest.skip(n as int + 1) =~= cs@.skip(end + 1));
                assert(rows(out@) + lines(cs@.skip(end + 1)) =~= rows(before) + lines(rest));
            } else {
                assert(line@ =~= rest);
                assert(cs@.skip(cs@.len() as int) =~= Seq::<char>::empty());
                assert(rows(out@) + lines(cs@.skip(end as int)) =~= rows(before) + lines(rest));
            }
        }
        if end < cs.len() {
            start = end + 1;
        } else {
            start = end;
        }
    }
    proof {
        assert(cs@.skip(start as int) =~= Seq::<char>::empty());
        assert(rows(out@) + lines(cs@.skip(start as int)) =~= rows(out@));
    }
    out
}

/// The parts of `s` between the separators `c`.
pub fn split_at_char(s: &[char], c: char) -> (r: Vec<Vec<char>>)
    ensures
        rows(r@) == split(s@, c),
{
    let mut out: Vec<Vec<char>> = Vec::new();
    let mut start: usize = 0;
    proof {
        assert(s@.skip(0) =~= s@);
        assert(rows(out@) + split(s@, c) =~= split(s@, c));
    }
    loop
        invariant
            start <= s@.len(),
            rows(out@) + split(s@.skip(start as int), c) == split(s@, c),
        decreases s@.len() - start,
    {
        let ghost rest = s@.skip(start as int);
        let ghost before = out@;
        let end = scan_until(s, start, c);
        let part = vstd::slice::slice_to_vec(slice_subrange(s, start, end));
        out.push(part);
        proof {
            let n = until(rest, c);
            assert(rows(out@) =~= rows(before).push(part@));
            assert(part@ =~= rest.take(n as int));
            if end < s@.len() {
                assert(rest.skip(n as int + 1) =~= s@.skip(end + 1));
                assert(rows(out@) + split(s@.skip(end + 1), c) =~= rows(before) + split(rest, c));
            } else {
                assert(part@ =~= rest);
                assert(rows(out@) =~= rows(before) + split(rest, c));
            }
        }
        if end == s.len() {
            return out;
        }
        start = end + 1;
    }
}

/// `s` without the white space at its start.
pub open spec fn trim_start(s: Seq<char>) -> Seq<char>
    decreases s.len(),
{
    if s.len() > 0 && is_white_space(s[0]) {
        trim_start(s.drop_first())
    } else {
        s
    }
}

/// `s` without the white space at its end.
pub open spec fn trim_end(s: Seq<char>) -> Seq<char>
    decreases s.len(),
{
    if s.len() > 0 && is_white_space(s.last()) {
        trim_end(s.drop_last())
    } else {
        s
    }
}

/// `s` without the white space at either end.
pub open spec fn trim(s: Seq<char>) -> Seq<char> {
    trim_end(trim_start(s))
}

/// `s` without the white space at its start.
pub fn skip_white_space(s: &[char]) -> (r: &[char])
    ensures
        r@ == trim_start(s@),
{
    let mut i: usize = 0;
    proof {
        assert(s@.skip(0) =~= s@);
    }
    while i < s.len() && white_space(s[i])
        invariant
            i <= s@.len(),
            trim_start(s@.skip(i as int)) == trim_start(s@),
        decreases s@.len() - i,
    {
        proof {
            assert(s@.skip(i as int).drop_first() =~= s@.skip(i + 1));
        }
        i = i + 1;
    }
    let rest = slice_subrange(s, i, s.len());
    proof {
        assert(rest@ =~= s@.skip(i as int));
    }
    rest
}

/// `s` without the white space at either end.
pub fn trimmed(s: &[char]) -> (r: &[char])
    ensures
        r@ == trim(s@),
{
    let t = skip_white_space(s);
    let mut n: usize = t.len();
    proof {
        assert(t@.take(n as int) =~= t@);
    }
    while n > 0 && white_space(t[n - 1])
        invariant
            n <= t@.len(),
            trim_end(t@.take(n as int)) == trim_end(t@),
        decreases n,
    {
        proof {
            assert(t@.take(n as int).drop_last() =~= t@.take(n - 1));
        }
        n = n - 1;
    }
    let kept = slice_subrange(t, 0, n);
    proof {
        assert(kept@ =~= t@.take(n as int));
    }
    kept
}

// ---------------------------------------------------------------------------
// Putting together
// ---------------------------------------------------------------------------
/// The parts one after the other, with `separator` between each two.
pub open spec fn join(parts: Seq<Seq<char>>, separator: Seq<char>) -> Seq<char>
    decreases parts.len(),
{
    if parts.len() == 0 {
        Seq::empty()
    } else if parts.len() == 1 {
        parts[0]
    } else {
        join(parts.drop_last(), separator) + separator + parts.last()
    }
}

/// The parts one after the other, with `separator` between each two.
pub fn joined(parts: &Vec<String>, separator: &str) -> (r: String)
    ensures
        r@ == join(texts(parts@), separator@),
{
    let mut out = String::new();
    let mut i: usize = 0;
    while i < parts.len()
        invariant
            i <= parts@.len(),
            out@ == join(texts(parts@).take(i as int), separator@),
        decreases parts@.len() - i,
    {
        let ghost done = texts(parts@).take(i as int);
        if i > 0 {
            out.append(separator);
        }
        out.append(parts[i].as_str());
        proof {
            let next = texts(parts@).take(i + 1);
            assert(next.drop_last() =~= done);
            if i == 0 {
                assert(done =~= Seq::empty());
                assert(out@ =~= next[0]);
            }
        }
        i = i + 1;
    }
    proof {
        assert(texts(parts@).take(parts@.len() as int) =~= texts(parts@));
    }
    out
}

/// The digit with the value `d`.
pub open spec fn digit(d: nat) -> char {
    ('0' as u32 + d) as char
}

/// `n` in decimal digits.
pub open spec fn decimal(n: nat) -> Seq<char>
    decreases n,
{
    if n < 10 {
        seq![digit(n)]
    } else {
        decimal(n / 10).push(digit(n % 10))
    }
}

/// Appends `n` in decimal digits.
pub fn push_decimal(out: &mut String, n: u64)
    ensures
        final(out)@ == old(out)@ + decimal(n as nat),
    decreases n,
{
    if n >= 10 {
        push_decimal(out, n / 10);
    }
    let d: u8 = (n % 10) as u8;
    out.push((48 + d) as char);
    proof {
        let prefix = if n >= 10 {
            decimal((n / 10) as nat)
        } else {
            Seq::empty()
        };
        assert(final(out)@ =~= old(out)@ + prefix.push(digit((n % 10) as nat)));
        assert(prefix.push(digit((n % 10) as nat)) =~= decimal(n as nat));
    }
}

/// `n` blanks.
pub open spec fn blanks(n: nat) -> Seq<char> {
    Seq::new(n, |i: int| ' ')
}

/// `s`, filled up with blanks on the right to at least `width` characters.
pub open spec fn pad_right(s: Seq<char>, width: nat) -> Seq<char> {
    if s.len() < width {
        s + blanks((width - s.len()) as nat)
    } else {
        s
    }
}

/// Appends `s`, filled up with blanks on the right to at least `width` characters.
pub fn push_padded(out: &mut String, s: &str, width: usize)
    ensures
        final(out)@ == old(out)@ + pad_right(s@, width as nat),
{
    let ghost start = out@;
    out.append(s);
    let mut n: usize = s.unicode_len();
    while n < width
        invariant
            s@.len() <= n,
            n <= width || n == s@.len(),
            out@ == start + s@ + blanks((n - s@.len()) as nat),
        decreases width - n,
    {
        out.push(' ');
        proof {
            assert(blanks((n + 1 - s@.len()) as nat) =~= blanks((n - s@.len()) as nat).push(' '));
            assert(out@ =~= start + s@ + blanks((n + 1 - s@.len()) as nat));
        }
        n = n + 1;
    }
    proof {
        assert(out@ =~= start + pad_right(s@, width as nat));
    }
}

/// The lines, each with a line feed behind it.
pub open spec fn terminate(ls: Seq<Seq<char>>) -> Seq<char>
    decreases ls.len(),
{
    if ls.len() == 0 {
        Seq::empty()
    } else {
        ls[0] + seq!['\n'] + terminate(ls.drop_first())
    }
}

/// The lines `lines`, each with a line feed behind it.
pub fn terminated(lines: &Vec<String>) -> (r: String)
    ensures
        r@ == terminate(texts(lines@)),
{
    let ghost ls = texts(lines@);
    let mut out = String::new();
    let mut i: usize = 0;
    proof {
        assert(ls.take(0) =~= Seq::empty());
    }
    while i < lines.len()
        invariant
            i <= lines@.len(),
            ls == texts(lines@),
            out@ == terminate(ls.take(i as int)),
        decreases lines@.len() - i,
    {
        out.append(lines[i].as_str());
        out.push('\n');
        proof {
            let more = ls.take(i + 1);
            lemma_terminate_last(more);
            assert(more.drop_last() =~= ls.take(i as int));
            assert(more.last() == lines@[i as int]@);
            assert(out@ =~= terminate(more));
        }
        i = i + 1;
    }
    proof {
        assert(ls.take(ls.len() as int) =~= ls);
    }
    out
}

// ---------------------------------------------------------------------------
// Laws
// ---------------------------------------------------------------------------
/// A number has at least one digit.
pub proof fn lemma_decimal_len(n: nat)
    ensures
        decimal(n).len() > 0,
        n >= 10 ==> decimal(n).len() > 1,
    decreases n,
{
    if n >= 10 {
        lemma_decimal_len(n / 10);
    }
}

/// Different numbers are written differently.
pub proof fn law_decimal_injective(a: nat, b: nat)
    ensures
        decimal(a) == decimal(b) <==> a == b,
    decreases a,
{
    lemma_decimal_len(a);
    lemma_decimal_len(b);
    if decimal(a) == decimal(b) {
        assert(decimal(a).last() == decimal(b).last());
        if a >= 10 && b >= 10 {
            assert(decimal(a).drop_last() =~= decimal(a / 10));
            assert(decimal(b).drop_last() =~= decimal(b / 10));
            law_decimal_injective(a / 10, b / 10);
        } else if a < 10 && b < 10 {
            assert(decimal(a)[0] == digit(a));
            assert(decimal(b)[0] == digit(b));
        } else {
            assert(decimal(a).len() == decimal(b).len());
        }
    }
}

/// `line` is the text of one line: it holds no line feed and does not end with a
/// carriage return.
pub open spec fn is_line(line: Seq<char>) -> bool {
    &&& !line.contains('\n')
    &&& line.len() > 0 ==> line.last() != '\r'
}

/// Lines that were written with a line feed behind each are read back.
pub proof fn law_terminated_lines_read_back(ls: Seq<Seq<char>>)
    requires
        forall|i: int| 0 <= i < ls.len() ==> is_line(#[trigger] ls[i]),
    ensures
        lines(terminate(ls)) == ls,
    decreases ls.len(),
{
    if ls.len() == 0 {
        assert(lines(terminate(ls)) =~= ls);
    } else {
        let rest = ls.drop_first();
        let s = terminate(ls);
        let n = ls[0].len() as int;
        assert(is_line(ls[0]));
        assert forall|i: int| 0 <= i < rest.len() implies is_line(#[trigger] rest[i]) by {
            assert(rest[i] == ls[i + 1]);
        }
        law_terminated_lines_read_back(rest);
        assert forall|i: int| 0 <= i < n implies s[i] != '\n' by {
            assert(s[i] == ls[0][i]);
            assert(ls[0].contains(ls[0][i]));
        }
        lemma_until_is(s, '\n', n);
        assert(s.take(n) =~= ls[0]);
        assert(s.skip(n + 1) =~= terminate(rest));
        assert(lines(s) =~= ls);
    }
}

/// Lines that were joined by line feeds are read back, if the last one is not empty.
pub proof fn law_joined_lines_read_back(ls: Seq<Seq<char>>)
    requires
        ls.len() > 0,
        ls.last().len() > 0,
        forall|i: int| 0 <= i < ls.len() ==> is_line(#[trigger] ls[i]),
    ensures
        lines(join(ls, seq!['\n'])) == ls,
{
    let s = join(ls, seq!['\n']);
    lemma_terminate_join(ls);
    law_terminated_lines_read_back(ls);
    assert(is_line(ls.last()));
    assert(s.len() > 0 && s.last() == ls.last().last());
    assert(ls.last().contains(ls.last().last()));
    lemma_lines_without_last_feed(s);
}

/// Joining and one more line feed is terminating each line.
proof fn lemma_terminate_join(ls: Seq<Seq<char>>)
    requires
        ls.len() > 0,
    ensures
        terminate(ls) == join(ls, seq!['\n']) + seq!['\n'],
    decreases ls.len(),
{
    lemma_terminate_last(ls);
    if ls.len() == 1 {
        assert(ls.drop_last() =~= Seq::empty());
        assert(terminate(ls) =~= join(ls, seq!['\n']) + seq!['\n']);
    } else {
        lemma_terminate_join(ls.drop_last());
        assert(terminate(ls) =~= join(ls, seq!['\n']) + seq!['\n']);
    }
}

/// Ending lines goes line by line: the last line stands last, with a line feed behind
/// it.
proof fn lemma_terminate_last(ls: Seq<Seq<char>>)
    requires
        ls.len() > 0,
    ensures
        terminate(ls) == terminate(ls.drop_last()) + ls.last() + seq!['\n'],
    decreases ls.len(),
{
    if ls.len() == 1 {
        assert(ls.drop_first() =~= Seq::empty());
        assert(ls.drop_last() =~= Seq::empty());
        assert(terminate(ls) =~= terminate(ls.drop_last()) + ls.last() + seq!['\n']);
    } else {
        lemma_terminate_last(ls.drop_first());
        assert(ls.drop_first().drop_last() =~= ls.drop_last().drop_first());
        assert(terminate(ls) =~= terminate(ls.drop_last()) + ls.last() + seq!['\n']);
    }
}

/// A line feed behind a text that does not end a line adds no line.
proof fn lemma_lines_without_last_feed(s: Seq<char>)
    requires
        s.len() > 0,
        s.last() != '\n',
        s.last() != '\r',
    ensures
        lines(s + seq!['\n']) == lines(s),
    decreases s.len(),
{
    let whole = s + seq!['\n'];
    let n = until(s, '\n') as int;
    lemma_until(s, '\n');
    assert(forall|i: int| 0 <= i < s.len() ==> whole[i] == s[i]);
    lemma_until_is(whole, '\n', n);
    if n >= s.len() {
        assert(whole.take(n) =~= s);
        assert(lines(whole.skip(n + 1)) =~= Seq::<Seq<char>>::empty());
        assert(strip_return(s) == s);
        assert(lines(whole) =~= lines(s));
    } else {
        let rest = s.skip(n + 1);
        assert(whole.take(n) =~= s.take(n));
        assert(whole.skip(n + 1) =~= rest + seq!['\n']);
        assert(rest.len() > 0) by {
            if rest.len() == 0 {
                assert(s.last() == s[n]);
            }
        }
        assert(rest.last() == s.last());
        lemma_lines_without_last_feed(rest);
    }
}

// ---------------------------------------------------------------------------
// What the operations give
// ---------------------------------------------------------------------------
/// The texts of some strings are what each of them holds, whole and in order.
pub proof fn law_texts(strings: Seq<String>, rows_of: Seq<Vec<char>>)
    ensures
        texts(strings).len() == strings.len(),
        forall|i: int| 0 <= i < strings.len() ==> (#[trigger] texts(strings)[i]) == strings[i]@,
        rows(rows_of).len() == rows_of.len(),
        forall|i: int| 0 <= i < rows_of.len() ==> (#[trigger] rows(rows_of)[i]) == rows_of[i]@,
{
}

/// Making letters small changes the capital letters of ASCII and nothing else. A text
/// that is all ASCII is made small so; any other by the rules of Unicode.
pub proof fn law_lowercase(s: Seq<char>)
    ensures
        ascii_lowercase(s).len() == s.len(),
        forall|i: int|
            0 <= i < s.len() ==> {
                let c = s[i];
                let l = #[trigger] ascii_lowercase(s)[i];
                if 'A' <= c <= 'Z' {
                    'a' <= l <= 'z' && l as int - 'a' as int == c as int - 'A' as int
                } else {
                    l == c
                }
            },
        vstd::utf8::is_ascii_chars(s) ==> lowercase(s) == ascii_lowercase(s),
        !vstd::utf8::is_ascii_chars(s) ==> lowercase(s) == unicode_lowercase(s),
{
}

/// Valid UTF-8 is read as what it encodes, whole; of any other bytes the text is that
/// of `String::from_utf8_lossy`.
pub proof fn law_lossy_text(bytes: Seq<u8>)
    ensures
        vstd::utf8::valid_utf8(bytes) ==> lossy_text(bytes) == vstd::utf8::decode_utf8(bytes),
        !vstd::utf8::valid_utf8(bytes) ==> lossy_text(bytes) == repaired_text(bytes),
{
}

/// A text is contained in another wherever it stands there, and only so.
pub proof fn law_contains(s: Seq<char>, before: Seq<char>, pattern: Seq<char>, after: Seq<char>)
    ensures
        contains_text(before + pattern + after, pattern),
        contains_text(s, pattern) ==> exists|i: int|
            0 <= i <= s.len() - pattern.len() && s == #[trigger] s.take(i) + pattern + s.skip(
                i + pattern.len(),
            ),
{
    let whole = before + pattern + after;
    let n = before.len() as int;
    assert(whole.subrange(n, n + pattern.len()) =~= pattern);
    assert(occurs_at(whole, pattern, n));
    if contains_text(s, pattern) {
        let i = choose|i: int| occurs_at(s, pattern, i);
        assert(s =~= s.take(i) + s.subrange(i, i + pattern.len()) + s.skip(i + pattern.len()));
        assert(s == s.take(i) + pattern + s.skip(i + pattern.len()));
    }
}

/// A search finds the first place at which the text stands, and fails only if it
/// stands nowhere.
pub proof fn law_find(s: Seq<char>, pattern: Seq<char>, j: int)
    requires
        0 <= j <= s.len() - pattern.len(),
        s.subrange(j, j + pattern.len()) == pattern,
    ensures
        find_text(s, pattern) matches Some(i) && {
            &&& 0 <= i <= j
            &&& s.subrange(i, i + pattern.len()) == pattern
        },
{
    lemma_find_from(s, pattern, 0);
    assert(occurs_at(s, pattern, j));
}

/// A text is not found where it does not stand.
pub proof fn law_find_nothing(s: Seq<char>, pattern: Seq<char>)
    requires
        !contains_text(s, pattern),
    ensures
        find_text(s, pattern) is None,
{
    lemma_find_iff_contains(s, pattern);
}

/// A line ends at the first line feed; a carriage return before it belongs to the end.
/// What stands behind the last line feed is a line if it is not empty.
pub proof fn law_lines(line: Seq<char>, rest: Seq<char>)
    requires
        !line.contains('\n'),
    ensures
        line.len() == 0 || line.last() != '\r' ==> lines(line + seq!['\n'] + rest) == seq![line]
            + lines(rest),
        lines(line + seq!['\r', '\n'] + rest) == seq![line] + lines(rest),
        line.len() > 0 ==> lines(line) == seq![line],
        lines(Seq::empty()) == Seq::<Seq<char>>::empty(),
{
    assert forall|i: int| 0 <= i < line.len() implies line[i] != '\n' by {
        assert(line.contains(line[i]));
    }
    let n = line.len() as int;
    lemma_until_is(line, '\n', n);
    let fed = line + seq!['\n'] + rest;
    assert(forall|i: int| 0 <= i < n ==> fed[i] == line[i]);
    lemma_until_is(fed, '\n', n);
    assert(fed.take(n) =~= line);
    assert(fed.skip(n + 1) =~= rest);
    let returned = line + seq!['\r', '\n'] + rest;
    assert(forall|i: int| 0 <= i < n ==> returned[i] == line[i]);
    lemma_until_is(returned, '\n', n + 1);
    assert(returned.take(n + 1) =~= line.push('\r'));
    assert(line.push('\r').drop_last() =~= line);
    assert(returned.skip(n + 2) =~= rest);
    assert(lines(Seq::<char>::empty()) =~= Seq::empty());
}

/// The parts of a text hold no separator, and joined by it they are the text again.
pub proof fn law_split(s: Seq<char>, c: char)
    ensures
        split(s, c).len() > 0,
        forall|i: int| 0 <= i < split(s, c).len() ==> !(#[trigger] split(s, c)[i]).contains(c),
        join(split(s, c), seq![c]) == s,
    decreases s.len(),
{
    let n = until(s, c) as int;
    lemma_until(s, c);
    let head = s.take(n);
    assert(!head.contains(c)) by {
        if head.contains(c) {
            let k = choose|k: int| 0 <= k < head.len() && head[k] == c;
            assert(s[k] == c);
        }
    }
    if n >= s.len() {
        assert(head =~= s);
    } else {
        let rest = s.skip(n + 1);
        let tail = split(rest, c);
        let all = seq![head] + tail;
        law_split(rest, c);
        assert forall|i: int| 0 <= i < all.len() implies !(#[trigger] all[i]).contains(c) by {
            if i > 0 {
                assert(all[i] == tail[i - 1]);
            }
        }
        lemma_join_first(head, tail, seq![c]);
        assert(s =~= head + seq![c] + rest);
    }
}

/// Joining puts the separator behind the first part, too.
proof fn lemma_join_first(head: Seq<char>, tail: Seq<Seq<char>>, separator: Seq<char>)
    requires
        tail.len() > 0,
    ensures
        join(seq![head] + tail, separator) == head + separator + join(tail, separator),
    decreases tail.len(),
{
    let all = seq![head] + tail;
    assert(all.drop_last() =~= seq![head] + tail.drop_last());
    if tail.len() == 1 {
        assert(all.drop_last() =~= seq![head]);
        assert(join(seq![head], separator) == head);
        assert(all.last() == tail[0]);
        assert(join(all, separator) =~= head + separator + tail[0]);
    } else {
        lemma_join_first(head, tail.drop_last(), separator);
        assert(join(all, separator) =~= head + separator + join(tail, separator));
    }
}

/// Joining leaves out nothing and adds the separators only: nothing gives nothing, one
/// part is itself, and one more part comes last, behind a separator.
pub proof fn law_join(parts: Seq<Seq<char>>, part: Seq<char>, separator: Seq<char>)
    ensures
        join(Seq::empty(), separator) == Seq::<char>::empty(),
        join(seq![part], separator) == part,
        parts.len() > 0 ==> join(parts.push(part), separator) == join(parts, separator) + separator
            + part,
{
    assert(parts.push(part).drop_last() =~= parts);
}

/// Ending lines leaves out nothing and adds the line feeds only.
pub proof fn law_terminate(ls: Seq<Seq<char>>, line: Seq<char>)
    ensures
        terminate(Seq::empty()) == Seq::<char>::empty(),
        terminate(ls.push(line)) == terminate(ls) + line + seq!['\n'],
{
    lemma_terminate_last(ls.push(line));
    assert(ls.push(line).drop_last() =~= ls);
}

/// Every character is white space.
pub open spec fn all_white(s: Seq<char>) -> bool {
    forall|i: int| 0 <= i < s.len() ==> is_white_space(#[trigger] s[i])
}

/// Trimming takes the white space at the ends and nothing else.
pub proof fn law_trim(before: Seq<char>, core: Seq<char>, after: Seq<char>)
    requires
        all_white(before),
        all_white(after),
        core.len() > 0 ==> !is_white_space(core[0]) && !is_white_space(core.last()),
    ensures
        trim(before + core + after) == core,
{
    law_trim_start(before, core + after);
    if core.len() > 0 {
        assert((core + after)[0] == core[0]);
        assert(before + core + after =~= before + (core + after));
        lemma_trim_end(core, after);
    } else {
        let all = before + core + after;
        assert forall|i: int| 0 <= i < all.len() implies is_white_space(#[trigger] all[i]) by {
            if i < before.len() {
                assert(all[i] == before[i]);
            } else {
                assert(all[i] == after[i - before.len()]);
            }
        }
        law_trim_start(all, Seq::empty());
        assert(all + Seq::<char>::empty() =~= all);
        assert(core =~= Seq::empty());
    }
}

/// Trimming the start takes the white space there and nothing else.
pub proof fn law_trim_start(before: Seq<char>, rest: Seq<char>)
    requires
        all_white(before),
    ensures
        rest.len() == 0 || !is_white_space(rest[0]) ==> trim_start(before + rest) == rest,
    decreases before.len(),
{
    if before.len() == 0 {
        assert(before + rest =~= rest);
    } else {
        let fewer = before.drop_first();
        assert forall|i: int| 0 <= i < fewer.len() implies is_white_space(#[trigger] fewer[i]) by {
            assert(fewer[i] == before[i + 1]);
        }
        law_trim_start(fewer, rest);
        assert((before + rest)[0] == before[0]);
        assert((before + rest).drop_first() =~= fewer + rest);
    }
}

proof fn lemma_trim_end(core: Seq<char>, after: Seq<char>)
    requires
        all_white(after),
        core.len() > 0,
        !is_white_space(core.last()),
    ensures
        trim_end(core + after) == core,
    decreases after.len(),
{
    if after.len() == 0 {
        assert(core + after =~= core);
    } else {
        let fewer = after.drop_last();
        assert forall|i: int| 0 <= i < fewer.len() implies is_white_space(#[trigger] fewer[i]) by {
            assert(fewer[i] == after[i]);
        }
        lemma_trim_end(core, fewer);
        assert((core + after).last() == after[after.len() - 1]);
        assert((core + after).drop_last() =~= core + fewer);
    }
}

/// The number that decimal digits stand for.
pub open spec fn value_of(digits: Seq<char>) -> int
    decreases digits.len(),
{
    if digits.len() == 0 {
        0
    } else {
        10 * value_of(digits.drop_last()) + (digits.last() as int - '0' as int)
    }
}

/// A number is written in digits that stand for it, without a zero before it.
pub proof fn law_decimal_value(n: nat)
    ensures
        value_of(decimal(n)) == n,
        decimal(n).len() > 0,
        forall|i: int| 0 <= i < decimal(n).len() ==> '0' <= #[trigger] decimal(n)[i] <= '9',
        n > 0 ==> decimal(n)[0] != '0',
    decreases n,
{
    if n < 10 {
        assert(decimal(n).drop_last() =~= Seq::empty());
        assert(value_of(decimal(n).drop_last()) == 0);
    } else {
        law_decimal_value(n / 10);
        assert(decimal(n).drop_last() =~= decimal(n / 10));
        assert forall|i: int| 0 <= i < decimal(n).len() implies '0' <= #[trigger] decimal(n)[i]
            <= '9' by {
            if i < decimal(n).len() - 1 {
                assert(decimal(n)[i] == decimal(n / 10)[i]);
            }
        }
        assert(decimal(n)[0] == decimal(n / 10)[0]);
    }
}

/// Padding keeps the text, puts nothing but blanks behind it, and no more of them than
/// the width asks for.
pub proof fn law_pad_right(s: Seq<char>, width: nat)
    ensures
        s.is_prefix_of(pad_right(s, width)),
        pad_right(s, width).len() == if s.len() < width {
            width
        } else {
            s.len()
        },
        forall|i: int|
            s.len() <= i < pad_right(s, width).len() ==> #[trigger] pad_right(s, width)[i] == ' ',
{
    assert(pad_right(s, width).take(s.len() as int) =~= s);
}

} // verus!
