//! Character-level text utilities shared by the parsers of this crate.
//!
//! Text is handled as sequences of Unicode scalar values (`Seq<char>` in
//! specifications, `Vec<char>` in code); the functions here convert between
//! strings and character vectors and implement the few string operations that
//! the parsers need (trimming, splitting into lines, joining, replacing).
use vstd::prelude::*;

verus! {

/// Unicode `White_Space`, the property behind `char::is_whitespace`.
pub open spec fn is_whitespace(c: char) -> bool {
    ||| '\t' <= c <= '\r'
    ||| c == ' '
    ||| c == '\u{85}'
    ||| c == '\u{a0}'
    ||| c == '\u{1680}'
    ||| '\u{2000}' <= c <= '\u{200a}'
    ||| c == '\u{2028}'
    ||| c == '\u{2029}'
    ||| c == '\u{202f}'
    ||| c == '\u{205f}'
    ||| c == '\u{3000}'
}

/// The general category `Cc`, the property behind `char::is_control`.
pub open spec fn is_control(c: char) -> bool {
    c <= '\u{1f}' || ('\u{7f}' <= c <= '\u{9f}')
}

/// ASCII letters and digits.
pub open spec fn is_ascii_alphanumeric(c: char) -> bool {
    ('0' <= c <= '9') || ('a' <= c <= 'z') || ('A' <= c <= 'Z')
}

/// ASCII digits.
pub open spec fn is_ascii_digit(c: char) -> bool {
    '0' <= c <= '9'
}

/// The ASCII lowercase of a character; other characters are unchanged.
pub open spec fn ascii_lower(c: char) -> char {
    if 'A' <= c <= 'Z' {
        ((c as u32) + 32) as char
    } else {
        c
    }
}

/// Two texts that are equal up to ASCII case.
pub open spec fn eq_ignore_ascii_case(a: Seq<char>, b: Seq<char>) -> bool {
    &&& a.len() == b.len()
    &&& forall|i: int| 0 <= i < a.len() ==> ascii_lower(#[trigger] a[i]) == ascii_lower(b[i])
}

/// Whether `s` contains a control character.
pub open spec fn has_control(s: Seq<char>) -> bool {
    exists|i: int| 0 <= i < s.len() && is_control(#[trigger] s[i])
}

/// `s` begins with `p`.
pub open spec fn starts_with(s: Seq<char>, p: Seq<char>) -> bool {
    p.len() <= s.len() && s.take(p.len() as int) == p
}

/// `s` ends with `p`.
pub open spec fn ends_with(s: Seq<char>, p: Seq<char>) -> bool {
    p.len() <= s.len() && s.skip(s.len() - p.len()) == p
}

/// `p` occurs in `s` at position `i`.
pub open spec fn occurs_at(s: Seq<char>, p: Seq<char>, i: int) -> bool {
    0 <= i && i + p.len() <= s.len() && s.subrange(i, i + p.len()) == p
}

/// `p` occurs somewhere in `s` (`str::contains`).
pub open spec fn contains(s: Seq<char>, p: Seq<char>) -> bool {
    exists|i: int| occurs_at(s, p, i)
}

/// `s` with leading white space removed.
pub open spec fn trim_start(s: Seq<char>) -> Seq<char>
    decreases s.len(),
{
    if s.len() > 0 && is_whitespace(s[0]) {
        trim_start(s.drop_first())
    } else {
        s
    }
}

/// `s` with trailing white space removed.
pub open spec fn trim_end(s: Seq<char>) -> Seq<char>
    decreases s.len(),
{
    if s.len() > 0 && is_whitespace(s.last()) {
        trim_end(s.drop_last())
    } else {
        s
    }
}

/// `str::trim`: `s` without leading and trailing white space.
pub open spec fn trim(s: Seq<char>) -> Seq<char> {
    trim_end(trim_start(s))
}

/// `i` is the position of the first `c` in `s`.
pub open spec fn is_first(s: Seq<char>, c: char, i: int) -> bool {
    &&& 0 <= i < s.len()
    &&& s[i] == c
    &&& forall|j: int| 0 <= j < i ==> s[j] != c
}

/// The position of the first `c` in `s`, if any.
pub open spec fn find(s: Seq<char>, c: char) -> Option<int> {
    if exists|i: int| is_first(s, c, i) {
        Some(choose|i: int| is_first(s, c, i))
    } else {
        None
    }
}

/// The pieces of `s` between occurrences of `c` (`str::split` with a char):
/// each character either ends the last piece and opens a new one, or extends
/// the last piece.
pub open spec fn split_on(s: Seq<char>, c: char) -> Seq<Seq<char>>
    decreases s.len(),
{
    if s.len() == 0 {
        seq![Seq::<char>::empty()]
    } else {
        let pieces = split_on(s.drop_last(), c);
        if s.last() == c {
            pieces.push(Seq::<char>::empty())
        } else {
            pieces.update(pieces.len() - 1, pieces.last().push(s.last()))
        }
    }
}

/// The pieces, each trimmed, with the blank ones left out.
pub open spec fn nonblank(pieces: Seq<Seq<char>>) -> Seq<Seq<char>>
    decreases pieces.len(),
{
    if pieces.len() == 0 {
        Seq::empty()
    } else {
        let rest = nonblank(pieces.drop_last());
        let last = trim(pieces.last());
        if last.len() > 0 {
            rest.push(last)
        } else {
            rest
        }
    }
}

/// The lines of `s` (pieces between newlines), each trimmed, blank ones left
/// out. A line ending `\r\n` loses its `\r` to the trimming, and the empty
/// piece after a final newline is blank, so this is also what
/// `s.lines().map(str::trim).filter(|l| !l.is_empty())` yields.
pub open spec fn nonblank_lines(s: Seq<char>) -> Seq<Seq<char>> {
    nonblank(split_on(s, '\n'))
}

/// `[T]::join`: the parts with `sep` between each two of them.
pub open spec fn join(parts: Seq<Seq<char>>, sep: Seq<char>) -> Seq<char>
    decreases parts.len(),
{
    if parts.len() == 0 {
        Seq::empty()
    } else if parts.len() == 1 {
        parts[0]
    } else {
        join(parts.drop_last(), sep) + sep + parts.last()
    }
}

/// `str::replace`: every occurrence of `pat`, scanning from the left without
/// overlaps, replaced by `rep`.
pub open spec fn replace(s: Seq<char>, pat: Seq<char>, rep: Seq<char>) -> Seq<char>
    decreases s.len(),
{
    if pat.len() == 0 || s.len() < pat.len() {
        s
    } else if s.take(pat.len() as int) == pat {
        rep + replace(s.skip(pat.len() as int), pat, rep)
    } else {
        seq![s[0]] + replace(s.drop_first(), pat, rep)
    }
}

/// The characters of `s`, in order.
pub fn chars_of(s: &str) -> (v: Vec<char>)
    ensures
        v@ == s@,
{
    let mut v: Vec<char> = Vec::new();
    for c in iter: s.chars()
        invariant
            iter.seq() == s@,
            v@ == iter.seq().take(iter.index()),
    {
        v.push(c);
    }
    v
}

/// `String::push`: the claim is that the string's characters become the old
/// ones followed by `c`.
#[verifier::external_body]
fn push_char(s: &mut String, c: char)
    ensures
        final(s)@ == old(s)@.push(c),
{
    s.push(c);
}

/// The string made of the characters of `v`.
pub fn string_of(v: &Vec<char>) -> (s: String)
    ensures
        s@ == v@,
{
    let mut s = String::new();
    let mut i: usize = 0;
    while i < v.len()
        invariant
            i <= v.len(),
            s@ == v@.take(i as int),
        decreases v.len() - i,
    {
        push_char(&mut s, v[i]);
        assert(v@.take(i + 1) == v@.take(i as int).push(v@[i as int]));
        i = i + 1;
    }
    assert(v@.take(v.len() as int) == v@);
    s
}

/// `char::is_whitespace`.
pub fn whitespace(c: char) -> (b: bool)
    ensures
        b == is_whitespace(c),
{
    ('\t' <= c && c <= '\r') || c == ' ' || c == '\u{85}' || c == '\u{a0}' || c == '\u{1680}' || (
    '\u{2000}' <= c && c <= '\u{200a}') || c == '\u{2028}' || c == '\u{2029}' || c == '\u{202f}'
        || c == '\u{205f}' || c == '\u{3000}'
}

/// `char::is_control`.
pub fn control(c: char) -> (b: bool)
    ensures
        b == is_control(c),
{
    c <= '\u{1f}' || ('\u{7f}' <= c && c <= '\u{9f}')
}

/// The characters of `v` from `start` to `end`.
pub fn slice(v: &Vec<char>, start: usize, end: usize) -> (r: Vec<char>)
    requires
        start <= end <= v.len(),
    ensures
        r@ == v@.subrange(start as int, end as int),
{
    let mut r: Vec<char> = Vec::new();
    let mut i = start;
    while i < end
        invariant
            start <= i <= end <= v.len(),
            r@ == v@.subrange(start as int, i as int),
        decreases end - i,
    {
        r.push(v[i]);
        assert(v@.subrange(start as int, i + 1) == v@.subrange(start as int, i as int).push(
            v@[i as int],
        ));
        i = i + 1;
    }
    r
}

/// `a` followed by `b`.
pub fn concat(a: &Vec<char>, b: &Vec<char>) -> (r: Vec<char>)
    ensures
        r@ == a@ + b@,
{
    let mut r = a.clone();
    assert(r@ == a@);
    let mut i: usize = 0;
    while i < b.len()
        invariant
            i <= b.len(),
            r@ == a@ + b@.take(i as int),
        decreases b.len() - i,
    {
        r.push(b[i]);
        assert(b@.take(i + 1) == b@.take(i as int).push(b@[i as int]));
        i = i + 1;
    }
    assert(b@.take(b.len() as int) == b@);
    r
}

/// `s` with leading and trailing white space removed.
pub fn trimmed(v: &Vec<char>) -> (r: Vec<char>)
    ensures
        r@ == trim(v@),
{
    let n = v.len();
    let mut i: usize = 0;
    assert(v@.skip(0) == v@);
    while i < n && whitespace(v[i])
        invariant
            i <= n == v.len(),
            trim_start(v@) == trim_start(v@.skip(i as int)),
        decreases n - i,
    {
        assert(v@.skip(i as int).drop_first() == v@.skip(i + 1));
        i = i + 1;
    }
    assert(trim_start(v@) == v@.subrange(i as int, n as int));
    let mut j: usize = n;
    while j > i && whitespace(v[j - 1])
        invariant
            i <= j <= n == v.len(),
            trim_end(v@.subrange(i as int, n as int)) == trim_end(v@.subrange(i as int, j as int)),
        decreases j,
    {
        assert(v@.subrange(i as int, j as int).drop_last() == v@.subrange(i as int, j - 1));
        j = j - 1;
    }
    slice(v, i, j)
}

/// Whether `v` starts with `p`.
pub fn has_prefix(v: &Vec<char>, p: &Vec<char>) -> (b: bool)
    ensures
        b == starts_with(v@, p@),
{
    if p.len() > v.len() {
        return false;
    }
    let mut i: usize = 0;
    while i < p.len()
        invariant
            p.len() <= v.len(),
            i <= p.len(),
            forall|k: int| 0 <= k < i ==> v@[k] == p@[k],
        decreases p.len() - i,
    {
        if v[i] != p[i] {
            assert(v@.take(p.len() as int)[i as int] != p@[i as int]);
            return false;
        }
        i = i + 1;
    }
    assert(v@.take(p.len() as int) == p@);
    true
}

/// Whether `p` occurs in `v` at position `at`.
pub fn matches_at(v: &Vec<char>, p: &Vec<char>, at: usize) -> (b: bool)
    ensures
        b == occurs_at(v@, p@, at as int),
{
    if at > v.len() || p.len() > v.len() - at {
        return false;
    }
    let mut i: usize = 0;
    while i < p.len()
        invariant
            at + p.len() <= v.len(),
            i <= p.len(),
            forall|k: int| 0 <= k < i ==> v@[at + k] == p@[k],
        decreases p.len() - i,
    {
        if v[at + i] != p[i] {
            assert(v@.subrange(at as int, at + p.len())[i as int] != p@[i as int]);
            return false;
        }
        i = i + 1;
    }
    assert(v@.subrange(at as int, at + p.len()) == p@);
    true
}

/// Whether `v` ends with `p`.
pub fn has_suffix(v: &Vec<char>, p: &Vec<char>) -> (b: bool)
    ensures
        b == ends_with(v@, p@),
{
    if p.len() > v.len() {
        return false;
    }
    let b = matches_at(v, p, v.len() - p.len());
    assert(v@.skip(v.len() - p.len()) == v@.subrange(v.len() - p.len(), v.len() as int));
    b
}

/// Whether `p` occurs in `v`.
pub fn includes(v: &Vec<char>, p: &Vec<char>) -> (b: bool)
    ensures
        b == contains(v@, p@),
{
    if p.len() > v.len() {
        return false;
    }
    let last = v.len() - p.len();
    let mut i: usize = 0;
    while i < last
        invariant
            p.len() <= v.len(),
            last == v.len() - p.len(),
            i <= last,
            forall|k: int| 0 <= k < i ==> !occurs_at(v@, p@, k),
        decreases last - i,
    {
        if matches_at(v, p, i) {
            return true;
        }
        i = i + 1;
    }
    if matches_at(v, p, last) {
        return true;
    }
    assert forall|k: int| !occurs_at(v@, p@, k) by {
        if 0 <= k && k + p.len() <= v.len() {
            assert(k <= last);
        }
    }
    false
}

/// Whether `v` holds a control character.
pub fn any_control(v: &Vec<char>) -> (b: bool)
    ensures
        b == has_control(v@),
{
    let mut i: usize = 0;
    while i < v.len()
        invariant
            i <= v.len(),
            forall|k: int| 0 <= k < i ==> !is_control(v@[k]),
        decreases v.len() - i,
    {
        if control(v[i]) {
            return true;
        }
        i = i + 1;
    }
    false
}

/// The position of the first `c` in `v`.
pub fn find_char(v: &Vec<char>, c: char) -> (r: Option<usize>)
    ensures
        match r {
            Some(i) => find(v@, c) == Some(i as int),
            None => find(v@, c) is None,
        },
{
    let mut i: usize = 0;
    while i < v.len()
        invariant
            i <= v.len(),
            forall|k: int| 0 <= k < i ==> v@[k] != c,
        decreases v.len() - i,
    {
        if v[i] == c {
            assert(is_first(v@, c, i as int));
            assert forall|k: int| is_first(v@, c, k) implies k == i by {
                if k < i {
                    assert(v@[k] != c);
                } else if k > i {
                    assert(v@[i as int] != c);
                }
            }
            return Some(i);
        }
        i = i + 1;
    }
    assert(forall|k: int| !is_first(v@, c, k));
    None
}

/// Splitting gives at least one piece.
pub proof fn lemma_split_nonempty(s: Seq<char>, c: char)
    ensures
        split_on(s, c).len() >= 1,
    decreases s.len(),
{
    if s.len() > 0 {
        lemma_split_nonempty(s.drop_last(), c);
    }
}

/// The pieces of `v` between occurrences of `c`.
pub fn split_char(v: &Vec<char>, c: char) -> (r: Vec<Vec<char>>)
    ensures
        r@.map_values(|p: Vec<char>| p@) == split_on(v@, c),
{
    let mut done: Vec<Vec<char>> = Vec::new();
    let mut current: Vec<char> = Vec::new();
    let mut i: usize = 0;
    assert(v@.take(0) =~= Seq::<char>::empty());
    while i < v.len()
        invariant
            i <= v.len(),
            done@.map_values(|p: Vec<char>| p@).push(current@) == split_on(v@.take(i as int), c),
        decreases v.len() - i,
    {
        let ghost before = v@.take(i as int);
        let ghost after = v@.take(i + 1);
        assert(after.drop_last() == before);
        assert(after.last() == v@[i as int]);
        proof {
            lemma_split_nonempty(before, c);
        }
        if v[i] == c {
            let ghost prior = done@.map_values(|p: Vec<char>| p@);
            let finished = current;
            done.push(finished);
            current = Vec::new();
            assert(done@.map_values(|p: Vec<char>| p@) =~= prior.push(finished@));
            assert(done@.map_values(|p: Vec<char>| p@).push(current@) =~= split_on(before, c).push(
                Seq::<char>::empty(),
            ));
        } else {
            current.push(v[i]);
            assert(done@.map_values(|p: Vec<char>| p@).push(current@) =~= split_on(
                before,
                c,
            ).update(split_on(before, c).len() - 1, split_on(before, c).last().push(v@[i as int])));
        }
        i = i + 1;
    }
    assert(v@.take(v.len() as int) == v@);
    let ghost prior = done@.map_values(|p: Vec<char>| p@);
    done.push(current);
    assert(done@.map_values(|p: Vec<char>| p@) =~= prior.push(current@));
    done
}

/// The pieces, each trimmed, with the blank ones left out.
pub fn nonblank_pieces(pieces: &Vec<Vec<char>>) -> (r: Vec<Vec<char>>)
    ensures
        r@.map_values(|p: Vec<char>| p@) == nonblank(pieces@.map_values(|p: Vec<char>| p@)),
{
    let ghost all = pieces@.map_values(|p: Vec<char>| p@);
    let mut out: Vec<Vec<char>> = Vec::new();
    let mut i: usize = 0;
    assert(all.take(0) =~= Seq::<Seq<char>>::empty());
    while i < pieces.len()
        invariant
            i <= pieces.len(),
            all == pieces@.map_values(|p: Vec<char>| p@),
            out@.map_values(|p: Vec<char>| p@) == nonblank(all.take(i as int)),
        decreases pieces.len() - i,
    {
        assert(all.take(i + 1).drop_last() == all.take(i as int));
        assert(all.take(i + 1).last() == pieces@[i as int]@);
        let t = trimmed(&pieces[i]);
        if t.len() > 0 {
            let ghost prior = out@.map_values(|p: Vec<char>| p@);
            out.push(t);
            assert(out@.map_values(|p: Vec<char>| p@) =~= prior.push(t@));
        }
        i = i + 1;
    }
    assert(all.take(pieces.len() as int) == all);
    out
}

/// The parts with `sep` between each two of them.
pub fn joined(parts: &Vec<Vec<char>>, sep: &Vec<char>) -> (r: Vec<char>)
    ensures
        r@ == join(parts@.map_values(|p: Vec<char>| p@), sep@),
{
    let ghost all = parts@.map_values(|p: Vec<char>| p@);
    let mut out: Vec<char> = Vec::new();
    let mut i: usize = 0;
    assert(all.take(0) =~= Seq::<Seq<char>>::empty());
    while i < parts.len()
        invariant
            i <= parts.len(),
            all == parts@.map_values(|p: Vec<char>| p@),
            out@ == join(all.take(i as int), sep@),
        decreases parts.len() - i,
    {
        assert(all.take(i + 1).drop_last() == all.take(i as int));
        assert(all.take(i + 1).last() == parts@[i as int]@);
        if i == 0 {
            out = parts[0].clone();
            assert(out@ == parts@[0]@);
        } else {
            let with_sep = concat(&out, sep);
            out = concat(&with_sep, &parts[i]);
        }
        i = i + 1;
    }
    assert(all.take(parts.len() as int) == all);
    out
}

/// `v` with every occurrence of `pat` replaced by `rep`.
pub fn replaced(v: &Vec<char>, pat: &Vec<char>, rep: &Vec<char>) -> (r: Vec<char>)
    ensures
        r@ == replace(v@, pat@, rep@),
{
    let mut out: Vec<char> = Vec::new();
    let mut i: usize = 0;
    assert(v@.skip(0) == v@);
    while pat.len() > 0 && i < v.len() && pat.len() <= v.len() - i
        invariant
            i <= v.len(),
            out@ + replace(v@.skip(i as int), pat@, rep@) == replace(v@, pat@, rep@),
        decreases v.len() - i,
    {
        let ghost rest = v@.skip(i as int);
        if matches_at(v, pat, i) {
            assert(rest.take(pat.len() as int) == v@.subrange(i as int, i + pat.len()));
            assert(rest.skip(pat.len() as int) == v@.skip(i + pat.len()));
            let ghost prior = out@;
            out = concat(&out, rep);
            assert(out@ + replace(v@.skip(i + pat.len()), pat@, rep@) == prior + (rep@ + replace(
                rest.skip(pat.len() as int),
                pat@,
                rep@,
            )));
            i = i + pat.len();
        } else {
            assert(rest.take(pat.len() as int) != pat@) by {
                if rest.take(pat.len() as int) == pat@ {
                    assert(v@.subrange(i as int, i + pat.len()) =~= rest.take(pat.len() as int));
                }
            }
            assert(rest.drop_first() == v@.skip(i + 1));
            let ghost prior = out@;
            out.push(v[i]);
            assert(out@ + replace(v@.skip(i + 1), pat@, rep@) == prior + (seq![rest[0]] + replace(
                rest.drop_first(),
                pat@,
                rep@,
            )));
            i = i + 1;
        }
    }
    let tail = slice(v, i, v.len());
    assert(tail@ == v@.skip(i as int));
    concat(&out, &tail)
}

/// The number of bytes of the UTF-8 encoding of `c`.
pub open spec fn utf8_width(c: char) -> nat {
    if c <= '\u{7f}' {
        1
    } else if c <= '\u{7ff}' {
        2
    } else if c <= '\u{ffff}' {
        3
    } else {
        4
    }
}

/// `str::len`: the number of bytes of the UTF-8 encoding of `s`.
pub open spec fn utf8_len(s: Seq<char>) -> nat
    decreases s.len(),
{
    if s.len() == 0 {
        0
    } else {
        utf8_len(s.drop_last()) + utf8_width(s.last())
    }
}

proof fn lemma_utf8_len_prefix(s: Seq<char>, k: int)
    requires
        0 <= k <= s.len(),
    ensures
        utf8_len(s.take(k)) <= utf8_len(s),
    decreases s.len(),
{
    if k < s.len() {
        assert(s.drop_last().take(k) == s.take(k));
        lemma_utf8_len_prefix(s.drop_last(), k);
    } else {
        assert(s.take(k) == s);
    }
}

/// Whether the UTF-8 encoding of `v` is longer than `limit` bytes.
pub fn utf8_longer_than(v: &Vec<char>, limit: usize) -> (b: bool)
    ensures
        b == (utf8_len(v@) > limit),
{
    let mut bytes: usize = 0;
    let mut i: usize = 0;
    assert(v@.take(0) =~= Seq::<char>::empty());
    while i < v.len()
        invariant
            i <= v.len(),
            bytes == utf8_len(v@.take(i as int)),
            bytes <= limit,
        decreases v.len() - i,
    {
        let c = v[i];
        let width: usize = if c <= '\u{7f}' {
            1
        } else if c <= '\u{7ff}' {
            2
        } else if c <= '\u{ffff}' {
            3
        } else {
            4
        };
        assert(v@.take(i + 1).drop_last() == v@.take(i as int));
        if width > limit - bytes {
            proof {
                lemma_utf8_len_prefix(v@, i + 1);
            }
            return true;
        }
        bytes = bytes + width;
        i = i + 1;
    }
    assert(v@.take(v.len() as int) == v@);
    false
}

/// The Unicode properties `Alphabetic` or `Numeric`, on which
/// `char::is_alphanumeric` answers.
pub uninterp spec fn alphanumeric(c: char) -> bool;

/// `char::is_alphanumeric`: whether `c` is alphabetic or numeric in the
/// sense of the Unicode tables of the standard library; the claim is only that
/// the answer depends on `c` alone.
#[verifier::external_body]
pub(crate) fn is_alphanumeric(c: char) -> (b: bool)
    ensures
        b == alphanumeric(c),
{
    c.is_alphanumeric()
}

/// `char::to_ascii_lowercase`.
pub fn lower(c: char) -> (r: char)
    ensures
        r == ascii_lower(c),
{
    if 'A' <= c && c <= 'Z' {
        let b: u8 = (c as u8) + 32;
        b as char
    } else {
        c
    }
}

/// The text with ASCII letters in lowercase.
pub open spec fn lower_all(s: Seq<char>) -> Seq<char> {
    s.map_values(|c: char| ascii_lower(c))
}

/// `str::to_ascii_lowercase`.
pub fn lowered(v: &Vec<char>) -> (r: Vec<char>)
    ensures
        r@ == lower_all(v@),
{
    let mut r: Vec<char> = Vec::new();
    let mut i: usize = 0;
    while i < v.len()
        invariant
            i <= v.len(),
            r@ == lower_all(v@.take(i as int)),
        decreases v.len() - i,
    {
        r.push(lower(v[i]));
        assert(lower_all(v@.take(i + 1)) =~= lower_all(v@.take(i as int)).push(ascii_lower(v@[i as int])));
        i = i + 1;
    }
    assert(v@.take(v.len() as int) == v@);
    r
}

/// Whether two texts are equal.
pub fn same(a: &Vec<char>, b: &Vec<char>) -> (r: bool)
    ensures
        r == (a@ == b@),
{
    if a.len() != b.len() {
        return false;
    }
    let mut i: usize = 0;
    while i < a.len()
        invariant
            a.len() == b.len(),
            i <= a.len(),
            forall|k: int| 0 <= k < i ==> a@[k] == b@[k],
        decreases a.len() - i,
    {
        if a[i] != b[i] {
            return false;
        }
        i = i + 1;
    }
    assert(a@ =~= b@);
    true
}

/// `str::eq_ignore_ascii_case`.
pub fn same_ignoring_case(a: &Vec<char>, b: &Vec<char>) -> (r: bool)
    ensures
        r == eq_ignore_ascii_case(a@, b@),
{
    if a.len() != b.len() {
        return false;
    }
    let mut i: usize = 0;
    while i < a.len()
        invariant
            a.len() == b.len(),
            i <= a.len(),
            forall|k: int| 0 <= k < i ==> ascii_lower(a@[k]) == ascii_lower(b@[k]),
        decreases a.len() - i,
    {
        if lower(a[i]) != lower(b[i]) {
            return false;
        }
        i = i + 1;
    }
    true
}

/// The pieces of `s` between characters that are not alphanumeric, built as
/// `split_on` builds the pieces between occurrences of one character.
pub open spec fn split_words(s: Seq<char>) -> Seq<Seq<char>>
    decreases s.len(),
{
    if s.len() == 0 {
        seq![Seq::<char>::empty()]
    } else {
        let pieces = split_words(s.drop_last());
        if !alphanumeric(s.last()) {
            pieces.push(Seq::<char>::empty())
        } else {
            pieces.update(pieces.len() - 1, pieces.last().push(s.last()))
        }
    }
}

proof fn lemma_split_words_nonempty(s: Seq<char>)
    ensures
        split_words(s).len() >= 1,
    decreases s.len(),
{
    if s.len() > 0 {
        lemma_split_words_nonempty(s.drop_last());
    }
}

/// `str::split(|c| !c.is_alphanumeric())`.
pub fn words_of(v: &Vec<char>) -> (r: Vec<Vec<char>>)
    ensures
        r@.map_values(|p: Vec<char>| p@) == split_words(v@),
{
    let mut done: Vec<Vec<char>> = Vec::new();
    let mut current: Vec<char> = Vec::new();
    let mut i: usize = 0;
    assert(v@.take(0) =~= Seq::<char>::empty());
    while i < v.len()
        invariant
            i <= v.len(),
            done@.map_values(|p: Vec<char>| p@).push(current@) == split_words(v@.take(i as int)),
        decreases v.len() - i,
    {
        let ghost before = v@.take(i as int);
        let ghost after = v@.take(i + 1);
        assert(after.drop_last() == before);
        assert(after.last() == v@[i as int]);
        proof {
            lemma_split_words_nonempty(before);
        }
        if !is_alphanumeric(v[i]) {
            let ghost prior = done@.map_values(|p: Vec<char>| p@);
            let finished = current;
            done.push(finished);
            current = Vec::new();
            assert(done@.map_values(|p: Vec<char>| p@) =~= prior.push(finished@));
            assert(done@.map_values(|p: Vec<char>| p@).push(current@) =~= split_words(before).push(
                Seq::<char>::empty(),
            ));
        } else {
            current.push(v[i]);
            assert(done@.map_values(|p: Vec<char>| p@).push(current@) =~= split_words(
                before,
            ).update(split_words(before).len() - 1, split_words(before).last().push(v@[i as int])));
        }
        i = i + 1;
    }
    assert(v@.take(v.len() as int) == v@);
    let ghost prior = done@.map_values(|p: Vec<char>| p@);
    done.push(current);
    assert(done@.map_values(|p: Vec<char>| p@) =~= prior.push(current@));
    done
}

/// Whether every character of `v` from `start` on is an ASCII digit.
pub fn all_digits_from(v: &Vec<char>, start: usize) -> (b: bool)
    requires
        start <= v.len(),
    ensures
        b == (forall|k: int| start <= k < v.len() ==> is_ascii_digit(v@[k])),
{
    let mut i = start;
    while i < v.len()
        invariant
            start <= i <= v.len(),
            forall|k: int| start <= k < i ==> is_ascii_digit(v@[k]),
        decreases v.len() - i,
    {
        if !('0' <= v[i] && v[i] <= '9') {
            return false;
        }
        i = i + 1;
    }
    true
}

/// `i` is the position of the first white space character of `s`.
pub open spec fn is_first_space(s: Seq<char>, i: int) -> bool {
    &&& 0 <= i < s.len()
    &&& is_whitespace(s[i])
    &&& forall|j: int| 0 <= j < i ==> !is_whitespace(s[j])
}

/// The position of the first white space character of `s`, if any.
pub open spec fn find_space(s: Seq<char>) -> Option<int> {
    if exists|i: int| is_first_space(s, i) {
        Some(choose|i: int| is_first_space(s, i))
    } else {
        None
    }
}

/// The position of the first white space character of `v`.
pub fn find_whitespace(v: &Vec<char>) -> (r: Option<usize>)
    ensures
        match r {
            Some(i) => find_space(v@) == Some(i as int),
            None => find_space(v@) is None,
        },
{
    let mut i: usize = 0;
    while i < v.len()
        invariant
            i <= v.len(),
            forall|k: int| 0 <= k < i ==> !is_whitespace(v@[k]),
        decreases v.len() - i,
    {
        if whitespace(v[i]) {
            assert(is_first_space(v@, i as int));
            assert forall|k: int| is_first_space(v@, k) implies k == i by {
                if k < i {
                    assert(!is_whitespace(v@[k]));
                } else if k > i {
                    assert(is_whitespace(v@[i as int]));
                }
            }
            return Some(i);
        }
        i = i + 1;
    }
    assert(forall|k: int| !is_first_space(v@, k));
    None
}

/// How `u32::from_str` fails.
pub enum IntError {
    Empty,
    InvalidDigit,
    Overflow,
}

/// The message of a failed `u32::from_str`, as its `Display` writes it.
pub open spec fn int_error_message(e: IntError) -> Seq<char> {
    match e {
        IntError::Empty => "cannot parse integer from empty string"@,
        IntError::InvalidDigit => "invalid digit found in string"@,
        IntError::Overflow => "number too large to fit in target type"@,
    }
}

/// The digits scanned from the left onto `acc`: the first non-digit, or the
/// first step past `u32::MAX`, is the error.
pub open spec fn scan_u32(digits: Seq<char>, acc: nat) -> Result<nat, IntError>
    decreases digits.len(),
{
    if digits.len() == 0 {
        Ok(acc)
    } else if !is_ascii_digit(digits[0]) {
        Err(IntError::InvalidDigit)
    } else {
        let next = acc * 10 + ((digits[0] as u32) - ('0' as u32));
        if next > u32::MAX {
            Err(IntError::Overflow)
        } else {
            scan_u32(digits.drop_first(), next as nat)
        }
    }
}

/// `u32::from_str`: decimal digits, after an optional `+`.
pub open spec fn parse_u32(s: Seq<char>) -> Result<nat, IntError> {
    if s.len() == 0 {
        Err(IntError::Empty)
    } else if s[0] == '+' {
        if s.len() == 1 {
            Err(IntError::InvalidDigit)
        } else {
            scan_u32(s.drop_first(), 0)
        }
    } else {
        scan_u32(s, 0)
    }
}

/// `u32::from_str`.
pub fn parse_number(v: &Vec<char>) -> (r: Result<u32, IntError>)
    ensures
        match parse_u32(v@) {
            Ok(n) => r matches Ok(m) && m == n,
            Err(IntError::Empty) => r matches Err(IntError::Empty),
            Err(IntError::InvalidDigit) => r matches Err(IntError::InvalidDigit),
            Err(IntError::Overflow) => r matches Err(IntError::Overflow),
        },
{
    if v.len() == 0 {
        return Err(IntError::Empty);
    }
    let mut i: usize = 0;
    if v[0] == '+' {
        if v.len() == 1 {
            return Err(IntError::InvalidDigit);
        }
        i = 1;
    }
    let ghost digits = v@.skip(i as int);
    assert(digits == if v@[0] == '+' { v@.drop_first() } else { v@ });
    let mut acc: u32 = 0;
    assert(parse_u32(v@) == scan_u32(digits, 0));
    while i < v.len()
        invariant
            i <= v.len(),
            parse_u32(v@) == scan_u32(digits, 0),
            scan_u32(digits, 0) == scan_u32(v@.skip(i as int), acc as nat),
        decreases v.len() - i,
    {
        let c = v[i];
        assert(v@.skip(i as int)[0] == c);
        assert(v@.skip(i as int).drop_first() == v@.skip(i + 1));
        if !('0' <= c && c <= '9') {
            return Err(IntError::InvalidDigit);
        }
        let d: u32 = (c as u32) - ('0' as u32);
        if acc > 429496729 || (acc == 429496729 && d > 5) {
            return Err(IntError::Overflow);
        }
        acc = acc * 10 + d;
        i = i + 1;
    }
    assert(v@.skip(i as int).len() == 0);
    Ok(acc)
}

/// `str::lines`: the pieces between newlines, without the empty piece after
/// a final newline; a piece ended by a newline loses one trailing `\r`.
pub open spec fn lines(s: Seq<char>) -> Seq<Seq<char>> {
    let pieces = split_on(s, '\n');
    let count = if s.len() == 0 || s.last() == '\n' {
        pieces.len() - 1
    } else {
        pieces.len() as int
    };
    Seq::new(
        count as nat,
        |i: int|
            if i < pieces.len() - 1 && pieces[i].len() > 0 && pieces[i].last() == '\r' {
                pieces[i].drop_last()
            } else {
                pieces[i]
            },
    )
}

/// A split ending on the separator ends with an empty piece.
pub proof fn lemma_split_count(s: Seq<char>, c: char)
    ensures
        split_on(s, c).len() >= 1,
        s.len() > 0 && s.last() == c ==> split_on(s, c).len() >= 2 && split_on(s, c).last().len()
            == 0,
    decreases s.len(),
{
    lemma_split_nonempty(s, c);
    if s.len() > 0 {
        lemma_split_nonempty(s.drop_last(), c);
    }
}

/// The lines of `v`.
pub fn lines_of(v: &Vec<char>) -> (r: Vec<Vec<char>>)
    ensures
        r@.map_values(|p: Vec<char>| p@) == lines(v@),
{
    let pieces = split_char(v, '\n');
    let ghost all = pieces@.map_values(|p: Vec<char>| p@);
    proof {
        lemma_split_count(v@, '\n');
    }
    let count = if v.len() == 0 || v[v.len() - 1] == '\n' {
        pieces.len() - 1
    } else {
        pieces.len()
    };
    let mut out: Vec<Vec<char>> = Vec::new();
    let mut i: usize = 0;
    while i < count
        invariant
            i <= count <= pieces.len(),
            pieces.len() >= 1,
            all == pieces@.map_values(|p: Vec<char>| p@),
            all == split_on(v@, '\n'),
            count == lines(v@).len(),
            out@.map_values(|p: Vec<char>| p@) == lines(v@).take(i as int),
        decreases count - i,
    {
        let piece = &pieces[i];
        assert(all[i as int] == piece@);
        let line = if i < pieces.len() - 1 && piece.len() > 0 && piece[piece.len() - 1] == '\r' {
            slice(piece, 0, piece.len() - 1)
        } else {
            piece.clone()
        };
        let ghost prior = out@.map_values(|p: Vec<char>| p@);
        out.push(line);
        assert(out@.map_values(|p: Vec<char>| p@) =~= prior.push(line@));
        assert(lines(v@).take(i + 1) =~= lines(v@).take(i as int).push(lines(v@)[i as int]));
        i = i + 1;
    }
    assert(lines(v@).take(count as int) =~= lines(v@));
    out
}

pub proof fn lemma_trim_start_first(s: Seq<char>)
    ensures
        trim_start(s).len() > 0 ==> !is_whitespace(trim_start(s)[0]),
    decreases s.len(),
{
    if s.len() > 0 && is_whitespace(s[0]) {
        lemma_trim_start_first(s.drop_first());
    }
}

pub proof fn lemma_trim_end_prefix(s: Seq<char>)
    ensures
        trim_end(s).len() <= s.len(),
        trim_end(s) == s.take(trim_end(s).len() as int),
        trim_end(s).len() > 0 ==> !is_whitespace(trim_end(s).last()),
    decreases s.len(),
{
    if s.len() > 0 && is_whitespace(s.last()) {
        lemma_trim_end_prefix(s.drop_last());
        assert(s.drop_last().take(trim_end(s).len() as int) =~= s.take(trim_end(s).len() as int));
    } else {
        assert(s.take(s.len() as int) =~= s);
    }
}

/// Trimming a trimmed text changes nothing.
pub proof fn lemma_trim_idempotent(s: Seq<char>)
    ensures
        trim(trim(s)) == trim(s),
{
    let t = trim(s);
    lemma_trim_start_first(s);
    lemma_trim_end_prefix(trim_start(s));
    if t.len() > 0 {
        assert(t[0] == trim_start(s)[0]);
    }
    assert(trim_start(t) == t);
    lemma_trim_end_prefix(t);
}

/// The bytes of a text are those of a prefix and of the rest.
pub proof fn lemma_utf8_split(s: Seq<char>, k: int)
    requires
        0 <= k <= s.len(),
    ensures
        utf8_len(s) == utf8_len(s.take(k)) + utf8_len(s.skip(k)),
    decreases s.len(),
{
    if k == s.len() {
        assert(s.take(k) =~= s);
        assert(s.skip(k) =~= Seq::<char>::empty());
    } else {
        lemma_utf8_split(s.drop_last(), k);
        assert(s.drop_last().take(k) =~= s.take(k));
        assert(s.skip(k).drop_last() =~= s.drop_last().skip(k));
        assert(s.skip(k).last() == s.last());
    }
}

/// One character more of a prefix adds its width.
pub proof fn lemma_utf8_step(s: Seq<char>, k: int)
    requires
        0 <= k < s.len(),
    ensures
        utf8_len(s.skip(k)) == utf8_width(s[k]) + utf8_len(s.skip(k + 1)),
        utf8_len(s.take(k + 1)) == utf8_len(s.take(k)) + utf8_width(s[k]),
{
    lemma_utf8_split(s, k);
    lemma_utf8_split(s, k + 1);
    assert(s.take(k + 1).drop_last() =~= s.take(k));
}

/// Every character of `s` is white space.
pub open spec fn blank(s: Seq<char>) -> bool {
    forall|k: int| 0 <= k < s.len() ==> is_whitespace(#[trigger] s[k])
}

/// Replacing a pattern with a character that does not occur in the text
/// changes nothing.
pub proof fn lemma_replace_absent(s: Seq<char>, pat: Seq<char>, rep: Seq<char>, j: int)
    requires
        0 <= j < pat.len(),
        !s.contains(pat[j]),
    ensures
        replace(s, pat, rep) == s,
    decreases s.len(),
{
    if s.len() >= pat.len() {
        if s.take(pat.len() as int) == pat {
            assert(s.take(pat.len() as int)[j] == s[j]);
            assert(s.contains(pat[j]));
        } else {
            let rest = s.drop_first();
            assert forall|k: int| 0 <= k < rest.len() implies rest[k] != pat[j] by {
                assert(rest[k] == s[k + 1]);
            }
            lemma_replace_absent(rest, pat, rep, j);
            assert(seq![s[0]] + rest =~= s);
        }
    }
}

/// A text without line breaks is one piece.
pub proof fn lemma_split_one_line(a: Seq<char>)
    requires
        !a.contains('\n'),
    ensures
        split_on(a, '\n') == seq![a],
    decreases a.len(),
{
    if a.len() > 0 {
        let front = a.drop_last();
        assert(!front.contains('\n')) by {
            if front.contains('\n') {
                let k = choose|k: int| 0 <= k < front.len() && front[k] == '\n';
                assert(a[k] == '\n');
            }
        }
        lemma_split_one_line(front);
        assert(a.last() != '\n');
        assert(front.push(a.last()) =~= a);
    } else {
        assert(a =~= Seq::<char>::empty());
    }
}

/// The pieces of two texts joined by a line break are the pieces of each.
pub proof fn lemma_split_concat(x: Seq<char>, y: Seq<char>)
    ensures
        split_on(x + seq!['\n'] + y, '\n') == split_on(x, '\n') + split_on(y, '\n'),
    decreases y.len(),
{
    let whole = x + seq!['\n'] + y;
    if y.len() == 0 {
        assert(whole.drop_last() =~= x);
        assert(split_on(y, '\n') =~= seq![Seq::<char>::empty()]);
        assert(split_on(x, '\n').push(Seq::<char>::empty()) =~= split_on(x, '\n') + split_on(
            y,
            '\n',
        ));
    } else {
        let front = y.drop_last();
        lemma_split_concat(x, front);
        lemma_split_nonempty(front, '\n');
        assert(whole.drop_last() =~= x + seq!['\n'] + front);
        assert(whole.last() == y.last());
        let left = split_on(x, '\n');
        let right = split_on(front, '\n');
        if y.last() == '\n' {
            assert((left + right).push(Seq::<char>::empty()) =~= left + right.push(
                Seq::<char>::empty(),
            ));
        } else {
            assert((left + right).update(
                (left + right).len() - 1,
                (left + right).last().push(y.last()),
            ) =~= left + right.update(right.len() - 1, right.last().push(y.last())));
        }
    }
}

/// Leaving out blank pieces of two lists leaves them out of each.
pub proof fn lemma_nonblank_concat(p: Seq<Seq<char>>, q: Seq<Seq<char>>)
    ensures
        nonblank(p + q) == nonblank(p) + nonblank(q),
    decreases q.len(),
{
    if q.len() == 0 {
        assert(p + q =~= p);
        assert(nonblank(p) + nonblank(q) =~= nonblank(p));
    } else {
        lemma_nonblank_concat(p, q.drop_last());
        assert((p + q).drop_last() =~= p + q.drop_last());
        assert((p + q).last() == q.last());
        let last = trim(q.last());
        if last.len() > 0 {
            assert((nonblank(p) + nonblank(q.drop_last())).push(last) =~= nonblank(p) + nonblank(
                q.drop_last(),
            ).push(last));
        }
    }
}

/// A blank text trims to nothing.
pub proof fn lemma_trim_blank(s: Seq<char>)
    requires
        blank(s),
    ensures
        trim(s).len() == 0,
    decreases s.len(),
{
    if s.len() > 0 {
        let rest = s.drop_first();
        assert(blank(rest)) by {
            assert forall|k: int| 0 <= k < rest.len() implies is_whitespace(#[trigger] rest[k]) by {
                assert(rest[k] == s[k + 1]);
            }
        }
        lemma_trim_blank(rest);
        assert(is_whitespace(s[0]));
        assert(trim_start(s) == trim_start(rest));
        lemma_trim_end_prefix(trim_start(rest));
    }
}

/// The pieces of a blank text are blank.
pub proof fn lemma_blank_pieces(g: Seq<char>)
    requires
        blank(g),
    ensures
        forall|i: int| 0 <= i < split_on(g, '\n').len() ==> blank(#[trigger] split_on(g, '\n')[i]),
    decreases g.len(),
{
    if g.len() > 0 {
        let front = g.drop_last();
        assert(blank(front)) by {
            assert forall|k: int| 0 <= k < front.len() implies is_whitespace(#[trigger] front[k]) by {
                assert(front[k] == g[k]);
            }
        }
        lemma_blank_pieces(front);
        lemma_split_nonempty(front, '\n');
        assert(is_whitespace(g.last()));
        let pieces = split_on(front, '\n');
        if g.last() != '\n' {
            let grown = pieces.last().push(g.last());
            assert(blank(pieces.last()));
            assert(blank(grown)) by {
                assert forall|k: int| 0 <= k < grown.len() implies is_whitespace(#[trigger] grown[k]) by {
                    if k < pieces.last().len() {
                        assert(grown[k] == pieces.last()[k]);
                    }
                }
            }
            assert forall|i: int| 0 <= i < split_on(g, '\n').len() implies blank(
                #[trigger] split_on(g, '\n')[i],
            ) by {
                if i < pieces.len() - 1 {
                    assert(split_on(g, '\n')[i] == pieces[i]);
                }
            }
        } else {
            assert forall|i: int| 0 <= i < split_on(g, '\n').len() implies blank(
                #[trigger] split_on(g, '\n')[i],
            ) by {
                if i < pieces.len() {
                    assert(split_on(g, '\n')[i] == pieces[i]);
                } else {
                    assert(split_on(g, '\n')[i] =~= Seq::<char>::empty());
                }
            }
        }
    }
}

/// Blank pieces are all left out.
pub proof fn lemma_nonblank_of_blank(pieces: Seq<Seq<char>>)
    requires
        forall|i: int| 0 <= i < pieces.len() ==> blank(#[trigger] pieces[i]),
    ensures
        nonblank(pieces).len() == 0,
    decreases pieces.len(),
{
    if pieces.len() > 0 {
        let front = pieces.drop_last();
        assert forall|i: int| 0 <= i < front.len() implies blank(#[trigger] front[i]) by {
            assert(front[i] == pieces[i]);
        }
        lemma_nonblank_of_blank(front);
        assert(blank(pieces[pieces.len() - 1]));
        lemma_trim_blank(pieces.last());
    }
}

/// A blank text has no nonblank line.
pub proof fn lemma_blank_lines(g: Seq<char>)
    requires
        blank(g),
    ensures
        nonblank_lines(g) == Seq::<Seq<char>>::empty(),
{
    lemma_blank_pieces(g);
    lemma_nonblank_of_blank(split_on(g, '\n'));
    assert(nonblank_lines(g) =~= Seq::<Seq<char>>::empty());
}

/// Joining two nonempty lists puts the separator between their joins.
pub proof fn lemma_join_concat(p: Seq<Seq<char>>, q: Seq<Seq<char>>, sep: Seq<char>)
    requires
        p.len() > 0,
        q.len() > 0,
    ensures
        join(p + q, sep) == join(p, sep) + sep + join(q, sep),
    decreases q.len(),
{
    assert((p + q).drop_last() =~= p + q.drop_last());
    assert((p + q).last() == q.last());
    if q.len() == 1 {
        assert(p + q.drop_last() =~= p);
    } else {
        lemma_join_concat(p, q.drop_last(), sep);
    }
}

/// Where no occurrence of the pattern straddles the end of `x`, replacing in
/// `x + z` replaces in each part.
pub proof fn lemma_replace_split(x: Seq<char>, z: Seq<char>, pat: Seq<char>, rep: Seq<char>)
    requires
        pat.len() > 0,
        forall|i: int|
            0 <= i < x.len() && i + pat.len() > x.len() ==> !occurs_at(x + z, pat, i),
    ensures
        replace(x + z, pat, rep) == replace(x, pat, rep) + replace(z, pat, rep),
    decreases x.len(),
{
    let s = x + z;
    let p = pat.len() as int;
    if x.len() == 0 {
        assert(s =~= z);
        assert(replace(x, pat, rep) =~= Seq::<char>::empty());
    } else if s.len() < p {
        assert(replace(x, pat, rep) == x);
        assert(replace(z, pat, rep) == z);
    } else if s.take(p) == pat {
        if x.len() < p {
            assert(s.subrange(0, p) =~= s.take(p));
            assert(occurs_at(s, pat, 0));
        }
        assert(x.take(p) =~= s.take(p));
        let rest = x.skip(p);
        assert(s.skip(p) =~= rest + z);
        assert forall|i: int| 0 <= i < rest.len() && i + pat.len() > rest.len() implies !occurs_at(
            rest + z,
            pat,
            i,
        ) by {
            if occurs_at(rest + z, pat, i) {
                assert((rest + z).subrange(i, i + p) =~= s.subrange(i + p, i + 2 * p));
                assert(occurs_at(s, pat, i + p));
            }
        }
        lemma_replace_split(rest, z, pat, rep);
        assert(replace(s, pat, rep) =~= rep + replace(rest, pat, rep) + replace(z, pat, rep));
    } else {
        let rest = x.drop_first();
        assert(s.drop_first() =~= rest + z);
        assert forall|i: int| 0 <= i < rest.len() && i + pat.len() > rest.len() implies !occurs_at(
            rest + z,
            pat,
            i,
        ) by {
            if occurs_at(rest + z, pat, i) {
                assert((rest + z).subrange(i, i + p) =~= s.subrange(i + 1, i + 1 + p));
                assert(occurs_at(s, pat, i + 1));
            }
        }
        lemma_replace_split(rest, z, pat, rep);
        if x.len() < p {
            assert(replace(rest, pat, rep) == rest);
            assert(seq![x[0]] + rest =~= x);
        } else {
            assert(x.take(p) =~= s.take(p));
        }
        assert(replace(s, pat, rep) =~= seq![x[0]] + replace(rest, pat, rep) + replace(
            z,
            pat,
            rep,
        ));
    }
}

/// Replacing keeps a text empty exactly when it was, and where neither the
/// text nor the replacement ends with `c`, the result does not either.
pub proof fn lemma_replace_end(s: Seq<char>, pat: Seq<char>, rep: Seq<char>, c: char)
    requires
        pat.len() > 0,
        rep.len() > 0,
        rep.last() != c,
        s.len() > 0 ==> s.last() != c,
    ensures
        replace(s, pat, rep).len() == 0 <==> s.len() == 0,
        replace(s, pat, rep).len() > 0 ==> replace(s, pat, rep).last() != c,
    decreases s.len(),
{
    let p = pat.len() as int;
    if s.len() >= p {
        if s.take(p) == pat {
            let rest = s.skip(p);
            if rest.len() > 0 {
                assert(rest.last() == s.last());
            }
            lemma_replace_end(rest, pat, rep, c);
        } else {
            let rest = s.drop_first();
            if rest.len() > 0 {
                assert(rest.last() == s.last());
            } else {
                assert(s.len() == 1);
            }
            lemma_replace_end(rest, pat, rep, c);
        }
    }
}

} // verus!
