//! Character-level text utilities with specifications.
//!
//! Strings are reasoned about through their view, a `Seq<char>`. The functions
//! here mirror the behaviour of the `str` methods the library relies on
//! (`trim`, `split_whitespace`, `lines`, `starts_with`, ...), each stated over
//! a spec function of a few lines.
use vstd::prelude::*;

verus! {

/// The Unicode `White_Space` property, as used by `char::is_whitespace`.
pub open spec fn is_white_space(c: char) -> bool {
    let u = c as u32;
    ||| 0x09 <= u <= 0x0D
    ||| u == 0x20
    ||| u == 0x85
    ||| u == 0xA0
    ||| u == 0x1680
    ||| 0x2000 <= u <= 0x200A
    ||| u == 0x2028
    ||| u == 0x2029
    ||| u == 0x202F
    ||| u == 0x205F
    ||| u == 0x3000
}

/// ASCII letters and digits.
pub open spec fn is_ascii_alnum(c: char) -> bool {
    let u = c as u32;
    ||| 0x30 <= u <= 0x39
    ||| 0x41 <= u <= 0x5A
    ||| 0x61 <= u <= 0x7A
}

/// ASCII lower-casing of one character; other characters are unchanged.
pub open spec fn ascii_lower(c: char) -> char {
    if 0x41 <= (c as u32) <= 0x5A {
        ((c as u32) + 32) as char
    } else {
        c
    }
}

/// Whether a character is white space.
pub fn char_is_whitespace(c: char) -> (r: bool)
    ensures
        r == is_white_space(c),
{
    let u = c as u32;
    (0x09 <= u && u <= 0x0D) || u == 0x20 || u == 0x85 || u == 0xA0 || u == 0x1680 || (0x2000
        <= u && u <= 0x200A) || u == 0x2028 || u == 0x2029 || u == 0x202F || u == 0x205F || u
        == 0x3000
}

/// Whether a character is an ASCII letter or digit.
pub fn char_is_ascii_alnum(c: char) -> (r: bool)
    ensures
        r == is_ascii_alnum(c),
{
    let u = c as u32;
    (0x30 <= u && u <= 0x39) || (0x41 <= u && u <= 0x5A) || (0x61 <= u && u <= 0x7A)
}

/// ASCII lower-casing of one character.
pub fn char_ascii_lower(c: char) -> (r: char)
    ensures
        r == ascii_lower(c),
{
    let u = c as u32;
    if 0x41 <= u && u <= 0x5A {
        let b: u8 = (u + 32) as u8;
        let r = b as char;
        assert(r == ascii_lower(c)) by {
            assert((b as u32) == u + 32);
        }
        r
    } else {
        c
    }
}

/// The classes of characters that trimming can strip.
#[derive(Clone, Copy, Debug, PartialEq, Eq)]
pub enum CharClass {
    /// Unicode white space.
    WhiteSpace,
    /// The character `-`.
    Dash,
    /// Anything but an ASCII letter or digit.
    NotAsciiAlnum,
}

/// Whether `c` belongs to the class `k`.
pub open spec fn in_class(k: CharClass, c: char) -> bool {
    match k {
        CharClass::WhiteSpace => is_white_space(c),
        CharClass::Dash => c == '-',
        CharClass::NotAsciiAlnum => !is_ascii_alnum(c),
    }
}

/// Whether `c` belongs to the class `k`.
pub fn char_in_class(k: CharClass, c: char) -> (r: bool)
    ensures
        r == in_class(k, c),
{
    match k {
        CharClass::WhiteSpace => char_is_whitespace(c),
        CharClass::Dash => c == '-',
        CharClass::NotAsciiAlnum => !char_is_ascii_alnum(c),
    }
}

/// `s` without its leading characters of class `k`.
pub open spec fn trim_start_by(s: Seq<char>, k: CharClass) -> Seq<char>
    decreases s.len(),
{
    if s.len() > 0 && in_class(k, s[0]) {
        trim_start_by(s.drop_first(), k)
    } else {
        s
    }
}

/// `s` without its trailing characters of class `k`.
pub open spec fn trim_end_by(s: Seq<char>, k: CharClass) -> Seq<char>
    decreases s.len(),
{
    if s.len() > 0 && in_class(k, s.last()) {
        trim_end_by(s.drop_last(), k)
    } else {
        s
    }
}

/// `s` without leading and trailing characters of class `k` (`str::trim_matches`).
pub open spec fn trim_by(s: Seq<char>, k: CharClass) -> Seq<char> {
    trim_end_by(trim_start_by(s, k), k)
}

/// `s` without leading and trailing white space (`str::trim`).
pub open spec fn trim(s: Seq<char>) -> Seq<char> {
    trim_by(s, CharClass::WhiteSpace)
}

/// The first `n` characters of `s`, or all of them when there are fewer.
pub open spec fn take_chars(s: Seq<char>, n: nat) -> Seq<char> {
    if n < s.len() {
        s.take(n as int)
    } else {
        s
    }
}

/// Whether `s` begins with `prefix`.
pub open spec fn has_prefix(s: Seq<char>, prefix: Seq<char>) -> bool {
    prefix.len() <= s.len() && s.take(prefix.len() as int) == prefix
}

/// One step of splitting on white space: the finished words and the word in progress.
pub open spec fn words_step(st: (Seq<Seq<char>>, Seq<char>), c: char) -> (
    Seq<Seq<char>>,
    Seq<char>,
) {
    if is_white_space(c) {
        if st.1.len() > 0 {
            (st.0.push(st.1), Seq::empty())
        } else {
            st
        }
    } else {
        (st.0, st.1.push(c))
    }
}

/// The state after splitting a prefix on white space.
pub open spec fn words_scan(s: Seq<char>) -> (Seq<Seq<char>>, Seq<char>)
    decreases s.len(),
{
    if s.len() == 0 {
        (Seq::empty(), Seq::empty())
    } else {
        words_step(words_scan(s.drop_last()), s.last())
    }
}

/// The maximal runs of non-white-space characters of `s` (`str::split_whitespace`).
pub open spec fn words(s: Seq<char>) -> Seq<Seq<char>> {
    let st = words_scan(s);
    if st.1.len() > 0 {
        st.0.push(st.1)
    } else {
        st.0
    }
}

/// `line` without one trailing carriage return.
pub open spec fn strip_cr(line: Seq<char>) -> Seq<char> {
    if line.len() > 0 && line.last() == '\r' {
        line.drop_last()
    } else {
        line
    }
}

/// One step of splitting into lines.
pub open spec fn lines_step(st: (Seq<Seq<char>>, Seq<char>), c: char) -> (
    Seq<Seq<char>>,
    Seq<char>,
) {
    if c == '\n' {
        (st.0.push(strip_cr(st.1)), Seq::empty())
    } else {
        (st.0, st.1.push(c))
    }
}

/// The state after splitting a prefix into lines.
pub open spec fn lines_scan(s: Seq<char>) -> (Seq<Seq<char>>, Seq<char>)
    decreases s.len(),
{
    if s.len() == 0 {
        (Seq::empty(), Seq::empty())
    } else {
        lines_step(lines_scan(s.drop_last()), s.last())
    }
}

/// The lines of `s` (`str::lines`): split at `\n`, a `\r` before the `\n` dropped,
/// and no empty line after a final `\n`.
pub open spec fn lines(s: Seq<char>) -> Seq<Seq<char>> {
    let st = lines_scan(s);
    if st.1.len() > 0 {
        st.0.push(st.1)
    } else {
        st.0
    }
}

/// A text without line breaks is one unfinished line.
pub proof fn lemma_lines_scan_single(x: Seq<char>)
    requires
        forall|i: int| 0 <= i < x.len() ==> x[i] != '\n',
    ensures
        lines_scan(x) == (Seq::<Seq<char>>::empty(), x),
    decreases x.len(),
{
    if x.len() > 0 {
        lemma_lines_scan_single(x.drop_last());
        assert(x.drop_last().push(x.last()) =~= x);
    } else {
        assert(x =~= Seq::<char>::empty());
    }
}

/// Splitting `x`, a line break, then `y` into lines: the first line is `x`, the rest are
/// the lines of `y`.
proof fn lemma_lines_scan_break(x: Seq<char>, y: Seq<char>)
    requires
        forall|i: int| 0 <= i < x.len() ==> x[i] != '\n',
    ensures
        lines_scan(x + seq!['\n'] + y) == (seq![strip_cr(x)] + lines_scan(y).0, lines_scan(y).1),
    decreases y.len(),
{
    let s = x + seq!['\n'] + y;
    if y.len() == 0 {
        assert(s.drop_last() =~= x);
        lemma_lines_scan_single(x);
        assert(seq![strip_cr(x)] =~= Seq::<Seq<char>>::empty().push(strip_cr(x)));
        assert(seq![strip_cr(x)] + lines_scan(y).0 =~= seq![strip_cr(x)]);
    } else {
        let y1 = y.drop_last();
        assert(s.drop_last() =~= x + seq!['\n'] + y1);
        lemma_lines_scan_break(x, y1);
        let st = lines_scan(y1);
        let c = y.last();
        assert(s.last() == c);
        if c == '\n' {
            assert((seq![strip_cr(x)] + st.0).push(strip_cr(st.1)) =~= seq![strip_cr(x)] + st.0.push(
                strip_cr(st.1),
            ));
        } else {
        }
    }
}

/// The lines of `x`, a line break, then `y`: `x` (without a final carriage return),
/// then the lines of `y`.
pub proof fn lemma_lines_break(x: Seq<char>, y: Seq<char>)
    requires
        forall|i: int| 0 <= i < x.len() ==> x[i] != '\n',
    ensures
        lines(x + seq!['\n'] + y) == seq![strip_cr(x)] + lines(y),
{
    lemma_lines_scan_break(x, y);
    let st = lines_scan(y);
    if st.1.len() > 0 {
        assert((seq![strip_cr(x)] + st.0).push(st.1) =~= seq![strip_cr(x)] + st.0.push(st.1));
    }
}

/// `s` split at its first `c`, when it has one (`str::split_once`).
pub open spec fn split_once_char(s: Seq<char>, c: char) -> Option<(Seq<char>, Seq<char>)> {
    if exists|i: int| 0 <= i < s.len() && s[i] == c {
        let i = choose|i: int| 0 <= i < s.len() && s[i] == c && forall|j: int| 0 <= j < i ==> s[j] != c;
        Some((s.take(i), s.skip(i + 1)))
    } else {
        None
    }
}

/// Whether two texts are equal up to ASCII case.
pub open spec fn eq_ignore_ascii_case(a: Seq<char>, b: Seq<char>) -> bool {
    a.len() == b.len() && forall|i: int| 0 <= i < a.len() ==> ascii_lower(a[i]) == ascii_lower(b[i])
}

/// The parts of `parts` separated by `sep`.
pub open spec fn join(parts: Seq<Seq<char>>, sep: Seq<char>) -> Seq<char>
    decreases parts.len(),
{
    if parts.len() == 0 {
        Seq::empty()
    } else if parts.len() == 1 {
        parts[0]
    } else {
        join(parts.drop_last(), sep) + sep + parts.last()
    }
}

/// The decimal digit for `d < 10`.
pub open spec fn digit_char(d: nat) -> char {
    if d == 0 {
        '0'
    } else if d == 1 {
        '1'
    } else if d == 2 {
        '2'
    } else if d == 3 {
        '3'
    } else if d == 4 {
        '4'
    } else if d == 5 {
        '5'
    } else if d == 6 {
        '6'
    } else if d == 7 {
        '7'
    } else if d == 8 {
        '8'
    } else {
        '9'
    }
}

/// The decimal representation of a natural number, without leading zeros.
pub open spec fn decimal(n: nat) -> Seq<char>
    decreases n,
{
    if n < 10 {
        seq![digit_char(n)]
    } else {
        decimal(n / 10).push(digit_char(n % 10))
    }
}

/// The decimal representation of an integer, with a leading `-` when negative.
pub open spec fn signed_decimal(n: int) -> Seq<char> {
    if n < 0 {
        seq!['-'] + decimal((-n) as nat)
    } else {
        decimal(n as nat)
    }
}

/// `s` padded on the left with `0` up to `width` characters (`{:0width}`).
pub open spec fn zero_padded(s: Seq<char>, width: nat) -> Seq<char> {
    if s.len() >= width {
        s
    } else {
        Seq::new((width - s.len()) as nat, |i: int| '0') + s
    }
}

/// Strict lexicographic order on character sequences, by code point.
/// On UTF-8 strings it is the order of `String`'s `Ord` and of SQLite's binary collation.
pub open spec fn seq_lt(a: Seq<char>, b: Seq<char>) -> bool
    decreases a.len(),
{
    if a.len() == 0 {
        b.len() > 0
    } else if b.len() == 0 {
        false
    } else if a[0] != b[0] {
        (a[0] as int) < (b[0] as int)
    } else {
        seq_lt(a.drop_first(), b.drop_first())
    }
}

/// Number of bytes of a character in UTF-8.
pub open spec fn utf8_len(c: char) -> nat {
    let u = c as u32;
    if u < 0x80 {
        1
    } else if u < 0x800 {
        2
    } else if u < 0x10000 {
        3
    } else {
        4
    }
}

/// Number of bytes of a character sequence in UTF-8 (`str::len`).
pub open spec fn utf8_byte_len(s: Seq<char>) -> nat
    decreases s.len(),
{
    if s.len() == 0 {
        0
    } else {
        utf8_byte_len(s.drop_last()) + utf8_len(s.last())
    }
}

/// The view of each vector of characters.
pub open spec fn char_vec_views(v: Seq<Vec<char>>) -> Seq<Seq<char>> {
    Seq::new(v.len(), |i: int| v[i]@)
}

/// The view of each string.
pub open spec fn string_views(v: Seq<String>) -> Seq<Seq<char>> {
    Seq::new(v.len(), |i: int| v[i]@)
}

/// The words of `s` and the word in progress hold only characters of `s` that satisfy `p`
/// and are not white space, when every character of `s` satisfies `p`.
proof fn lemma_words_scan_chars(s: Seq<char>, p: spec_fn(char) -> bool)
    requires
        forall|i: int| 0 <= i < s.len() ==> p(#[trigger] s[i]),
    ensures
        forall|w: int, j: int|
            0 <= w < words_scan(s).0.len() && 0 <= j < words_scan(s).0[w].len() ==> p(
                #[trigger] words_scan(s).0[w][j],
            ) && !is_white_space(words_scan(s).0[w][j]),
        forall|j: int|
            0 <= j < words_scan(s).1.len() ==> p(#[trigger] words_scan(s).1[j]) && !is_white_space(
                words_scan(s).1[j],
            ),
    decreases s.len(),
{
    if s.len() > 0 {
        let front = s.drop_last();
        assert forall|i: int| 0 <= i < front.len() implies p(#[trigger] front[i]) by {
            assert(front[i] == s[i]);
        }
        lemma_words_scan_chars(front, p);
        let st = words_scan(front);
        let c = s.last();
        assert(p(c));
        assert(words_scan(s) == words_step(st, c));
        if is_white_space(c) {
            if st.1.len() > 0 {
                let n = st.0.push(st.1);
                assert forall|w: int, j: int| 0 <= w < n.len() && 0 <= j < n[w].len() implies p(
                    #[trigger] n[w][j],
                ) && !is_white_space(n[w][j]) by {
                    if w < st.0.len() {
                        assert(n[w] == st.0[w]);
                    } else {
                        assert(n[w] == st.1);
                    }
                }
            }
        } else {
            let m = st.1.push(c);
            assert forall|j: int| 0 <= j < m.len() implies p(#[trigger] m[j]) && !is_white_space(m[j]) by {
                if j < st.1.len() {
                    assert(m[j] == st.1[j]);
                }
            }
        }
    }
}

/// Every character of every word of `s` satisfies `p` and is not white space, when every
/// character of `s` satisfies `p`.
pub proof fn lemma_words_chars(s: Seq<char>, p: spec_fn(char) -> bool)
    requires
        forall|i: int| 0 <= i < s.len() ==> p(#[trigger] s[i]),
    ensures
        forall|w: int, j: int|
            0 <= w < words(s).len() && 0 <= j < words(s)[w].len() ==> p(#[trigger] words(s)[w][j])
                && !is_white_space(words(s)[w][j]),
{
    lemma_words_scan_chars(s, p);
}

/// Every character of a join satisfies `p` when every character of the parts and of the
/// separator does.
pub proof fn lemma_join_chars(parts: Seq<Seq<char>>, sep: Seq<char>, p: spec_fn(char) -> bool)
    requires
        forall|w: int, j: int| 0 <= w < parts.len() && 0 <= j < parts[w].len() ==> p(#[trigger] parts[w][j]),
        forall|j: int| 0 <= j < sep.len() ==> p(#[trigger] sep[j]),
    ensures
        forall|i: int| 0 <= i < join(parts, sep).len() ==> p(#[trigger] join(parts, sep)[i]),
    decreases parts.len(),
{
    if parts.len() > 1 {
        let front = parts.drop_last();
        assert forall|w: int, j: int| 0 <= w < front.len() && 0 <= j < front[w].len() implies p(#[trigger] front[w][j]) by {
            assert(front[w] == parts[w]);
        }
        lemma_join_chars(front, sep, p);
        let a = join(front, sep);
        let l = parts.last();
        assert forall|i: int| 0 <= i < join(parts, sep).len() implies p(#[trigger] join(parts, sep)[i]) by {
            if i < a.len() {
                assert(join(parts, sep)[i] == a[i]);
            } else if i < a.len() + sep.len() {
                assert(join(parts, sep)[i] == sep[i - a.len()]);
            } else {
                assert(join(parts, sep)[i] == l[i - a.len() - sep.len()]);
                assert(p(parts[parts.len() - 1][i - a.len() - sep.len()]));
            }
        }
    } else if parts.len() == 1 {
        assert forall|i: int| 0 <= i < join(parts, sep).len() implies p(#[trigger] join(parts, sep)[i]) by {
            assert(p(parts[0][i]));
        }
    }
}

/// No sequence is before itself.
pub proof fn lemma_seq_lt_irreflexive(a: Seq<char>)
    ensures
        !seq_lt(a, a),
    decreases a.len(),
{
    if a.len() > 0 {
        lemma_seq_lt_irreflexive(a.drop_first());
    }
}

/// The order is transitive.
pub proof fn lemma_seq_lt_transitive(a: Seq<char>, b: Seq<char>, c: Seq<char>)
    requires
        seq_lt(a, b),
        seq_lt(b, c),
    ensures
        seq_lt(a, c),
    decreases a.len(),
{
    if a.len() > 0 && b.len() > 0 && c.len() > 0 && a[0] == b[0] && b[0] == c[0] {
        lemma_seq_lt_transitive(a.drop_first(), b.drop_first(), c.drop_first());
    }
}

/// Two different sequences are ordered one way or the other.
pub proof fn lemma_seq_lt_total(a: Seq<char>, b: Seq<char>)
    requires
        a != b,
    ensures
        seq_lt(a, b) || seq_lt(b, a),
    decreases a.len(),
{
    if a.len() == 0 && b.len() == 0 {
        assert(a =~= b);
    }
    if a.len() > 0 && b.len() > 0 && a[0] != b[0] {
        assert((a[0] as int) != (b[0] as int));
    }
    if a.len() > 0 && b.len() > 0 && a[0] == b[0] {
        if a.drop_first() == b.drop_first() {
            assert(a =~= seq![a[0]] + a.drop_first());
            assert(b =~= seq![b[0]] + b.drop_first());
        }
        lemma_seq_lt_total(a.drop_first(), b.drop_first());
    }
}

/// The order is asymmetric.
pub proof fn lemma_seq_lt_asymmetric(a: Seq<char>, b: Seq<char>)
    requires
        seq_lt(a, b),
    ensures
        !seq_lt(b, a),
{
    if seq_lt(b, a) {
        lemma_seq_lt_transitive(a, b, a);
        lemma_seq_lt_irreflexive(a);
    }
}

/// After trimming the start, the first character is not of the class.
pub proof fn lemma_trim_start_head(s: Seq<char>, k: CharClass)
    ensures
        trim_start_by(s, k).len() > 0 ==> !in_class(k, trim_start_by(s, k)[0]),
        trim_start_by(s, k).len() <= s.len(),
    decreases s.len(),
{
    if s.len() > 0 && in_class(k, s[0]) {
        lemma_trim_start_head(s.drop_first(), k);
    }
}

/// Trimming the end keeps a prefix whose last character is not of the class.
pub proof fn lemma_trim_end_prefix(s: Seq<char>, k: CharClass)
    ensures
        trim_end_by(s, k).len() <= s.len(),
        trim_end_by(s, k) == s.take(trim_end_by(s, k).len() as int),
        trim_end_by(s, k).len() > 0 ==> !in_class(k, trim_end_by(s, k).last()),
    decreases s.len(),
{
    if s.len() > 0 && in_class(k, s.last()) {
        lemma_trim_end_prefix(s.drop_last(), k);
        let t = trim_end_by(s.drop_last(), k);
        assert(s.drop_last().take(t.len() as int) =~= s.take(t.len() as int));
    } else {
        assert(s.take(s.len() as int) =~= s);
    }
}

/// Trimming twice is trimming once.
pub proof fn lemma_trim_by_idempotent(s: Seq<char>, k: CharClass)
    ensures
        trim_by(trim_by(s, k), k) == trim_by(s, k),
{
    let u = trim_start_by(s, k);
    let v = trim_end_by(u, k);
    lemma_trim_start_head(s, k);
    lemma_trim_end_prefix(u, k);
    if v.len() > 0 {
        assert(v[0] == u[0]);
    }
    assert(trim_start_by(v, k) == v);
    assert(trim_end_by(v, k) == v);
}

/// Trimming white space twice is trimming once.
pub proof fn lemma_trim_idempotent(s: Seq<char>)
    ensures
        trim(trim(s)) == trim(s),
{
    lemma_trim_by_idempotent(s, CharClass::WhiteSpace);
}

// ---------------------------------------------------------------------------
// Executable functions
// ---------------------------------------------------------------------------

/// The characters of a string.
pub fn str_chars(s: &str) -> (r: Vec<char>)
    ensures
        r@ == s@,
{
    let mut out: Vec<char> = Vec::new();
    for c in it: s.chars()
        invariant
            out@ == it.seq().take(it.index() as int),
            it.seq() == s@,
    {
        out.push(c);
    }
    out
}

/// A string made of the given characters (`String::from_iter`).
#[verifier::external_body]
pub(crate) fn string_from_chars(chars: &[char]) -> (r: String)
    ensures
        r@ == chars@,
{
    String::from_iter(chars)
}

/// An owned copy of a string slice.
pub fn str_to_string(s: &str) -> (r: String)
    ensures
        r@ == s@,
{
    String::from_str(s)
}

/// The characters `s[from..to]`.
pub fn sub_chars(s: &Vec<char>, from: usize, to: usize) -> (r: Vec<char>)
    requires
        from <= to <= s.len(),
    ensures
        r@ == s@.subrange(from as int, to as int),
{
    let mut out: Vec<char> = Vec::new();
    let mut i = from;
    while i < to
        invariant
            from <= i <= to <= s.len(),
            out@ == s@.subrange(from as int, i as int),
        decreases to - i,
    {
        out.push(s[i]);
        i = i + 1;
        assert(out@ =~= s@.subrange(from as int, i as int));
    }
    out
}

/// Appends the characters of `t` to `out`.
pub fn push_all(out: &mut Vec<char>, t: &Vec<char>)
    ensures
        final(out)@ == old(out)@ + t@,
{
    let mut i: usize = 0;
    while i < t.len()
        invariant
            i <= t.len(),
            out@ == old(out)@ + t@.take(i as int),
        decreases t.len() - i,
    {
        out.push(t[i]);
        i = i + 1;
        assert(out@ =~= old(out)@ + t@.take(i as int));
    }
    assert(t@.take(t.len() as int) =~= t@);
}

/// Appends the characters of a string slice to `out`.
pub fn push_str(out: &mut Vec<char>, s: &str)
    ensures
        final(out)@ == old(out)@ + s@,
{
    let t = str_chars(s);
    push_all(out, &t);
}

/// Whether two character sequences are equal.
pub fn chars_eq(a: &Vec<char>, b: &Vec<char>) -> (r: bool)
    ensures
        r == (a@ == b@),
{
    if a.len() != b.len() {
        return false;
    }
    let mut i: usize = 0;
    while i < a.len()
        invariant
            i <= a.len() == b.len(),
            a@.take(i as int) == b@.take(i as int),
        decreases a.len() - i,
    {
        if a[i] != b[i] {
            assert(a@[i as int] != b@[i as int]);
            return false;
        }
        assert(a@.take(i + 1) =~= a@.take(i as int).push(a@[i as int]));
        assert(b@.take(i + 1) =~= b@.take(i as int).push(b@[i as int]));
        i = i + 1;
    }
    assert(a@ =~= a@.take(a.len() as int));
    assert(b@ =~= b@.take(b.len() as int));
    true
}

/// Whether two string slices are equal.
pub fn str_eq(a: &str, b: &str) -> (r: bool)
    ensures
        r == (a@ == b@),
{
    let x = str_chars(a);
    let y = str_chars(b);
    chars_eq(&x, &y)
}

/// Whether `s` begins with `prefix`.
pub fn chars_has_prefix(s: &Vec<char>, prefix: &Vec<char>) -> (r: bool)
    ensures
        r == has_prefix(s@, prefix@),
{
    if prefix.len() > s.len() {
        return false;
    }
    let head = sub_chars(s, 0, prefix.len());
    assert(head@ =~= s@.take(prefix.len() as int));
    chars_eq(&head, prefix)
}

/// Index of the first character of `s` that is not of class `k`.
fn skip_class_forward(s: &Vec<char>, k: CharClass) -> (i: usize)
    ensures
        i <= s.len(),
        trim_start_by(s@, k) == s@.skip(i as int),
{
    let mut i: usize = 0;
    assert(s@.skip(0) =~= s@);
    while i < s.len() && char_in_class(k, s[i])
        invariant
            i <= s.len(),
            trim_start_by(s@, k) == trim_start_by(s@.skip(i as int), k),
        decreases s.len() - i,
    {
        assert(s@.skip(i as int).drop_first() =~= s@.skip(i + 1));
        i = i + 1;
    }
    i
}

/// End of `s[from..]` once its trailing characters of class `k` are dropped.
fn skip_class_backward(s: &Vec<char>, from: usize, k: CharClass) -> (j: usize)
    requires
        from <= s.len(),
    ensures
        from <= j <= s.len(),
        trim_end_by(s@.skip(from as int), k) == s@.subrange(from as int, j as int),
{
    let mut j: usize = s.len();
    assert(s@.skip(from as int) =~= s@.subrange(from as int, j as int));
    while j > from && char_in_class(k, s[j - 1])
        invariant
            from <= j <= s.len(),
            trim_end_by(s@.skip(from as int), k) == trim_end_by(
                s@.subrange(from as int, j as int),
                k,
            ),
        decreases j,
    {
        assert(s@.subrange(from as int, j as int).drop_last() =~= s@.subrange(
            from as int,
            j - 1,
        ));
        j = j - 1;
    }
    j
}

/// `s` without leading and trailing characters of class `k`.
pub fn chars_trim_by(s: &Vec<char>, k: CharClass) -> (r: Vec<char>)
    ensures
        r@ == trim_by(s@, k),
{
    let i = skip_class_forward(s, k);
    let j = skip_class_backward(s, i, k);
    sub_chars(s, i, j)
}

/// `s` without leading and trailing white space.
pub fn chars_trim(s: &Vec<char>) -> (r: Vec<char>)
    ensures
        r@ == trim(s@),
{
    chars_trim_by(s, CharClass::WhiteSpace)
}

/// A string slice without leading and trailing white space (`str::trim`).
pub fn trim_str(s: &str) -> (r: Vec<char>)
    ensures
        r@ == trim(s@),
{
    let c = str_chars(s);
    chars_trim(&c)
}

/// The first `n` characters of `s`.
pub fn chars_take(s: &Vec<char>, n: usize) -> (r: Vec<char>)
    ensures
        r@ == take_chars(s@, n as nat),
{
    if n < s.len() {
        sub_chars(s, 0, n)
    } else {
        let r = sub_chars(s, 0, s.len());
        assert(r@ =~= s@);
        r
    }
}

/// The maximal runs of non-white-space characters (`str::split_whitespace`).
pub fn split_words(s: &Vec<char>) -> (r: Vec<Vec<char>>)
    ensures
        char_vec_views(r@) == words(s@),
{
    let mut done: Vec<Vec<char>> = Vec::new();
    let mut cur: Vec<char> = Vec::new();
    let mut i: usize = 0;
    while i < s.len()
        invariant
            i <= s.len(),
            (char_vec_views(done@), cur@) == words_scan(s@.take(i as int)),
        decreases s.len() - i,
    {
        let c = s[i];
        assert(s@.take(i + 1).drop_last() =~= s@.take(i as int));
        assert(s@.take(i + 1).last() == c);
        if char_is_whitespace(c) {
            if cur.len() > 0 {
                let w = cur;
                done.push(w);
                cur = Vec::new();
                assert(char_vec_views(done@) =~= words_scan(s@.take(i as int)).0.push(w@));
            }
        } else {
            cur.push(c);
        }
        i = i + 1;
    }
    assert(s@.take(s.len() as int) =~= s@);
    if cur.len() > 0 {
        let w = cur;
        let ghost before = char_vec_views(done@);
        done.push(w);
        assert(char_vec_views(done@) =~= before.push(w@));
    }
    done
}

/// The lines of `s` (`str::lines`).
pub fn split_lines(s: &Vec<char>) -> (r: Vec<Vec<char>>)
    ensures
        char_vec_views(r@) == lines(s@),
{
    let mut done: Vec<Vec<char>> = Vec::new();
    let mut cur: Vec<char> = Vec::new();
    let mut i: usize = 0;
    while i < s.len()
        invariant
            i <= s.len(),
            (char_vec_views(done@), cur@) == lines_scan(s@.take(i as int)),
        decreases s.len() - i,
    {
        let c = s[i];
        assert(s@.take(i + 1).drop_last() =~= s@.take(i as int));
        assert(s@.take(i + 1).last() == c);
        if c == '\n' {
            let mut w = cur;
            if w.len() > 0 && w[w.len() - 1] == '\r' {
                w.pop();
            }
            let ghost before = char_vec_views(done@);
            done.push(w);
            cur = Vec::new();
            assert(char_vec_views(done@) =~= before.push(w@));
        } else {
            cur.push(c);
        }
        i = i + 1;
    }
    assert(s@.take(s.len() as int) =~= s@);
    if cur.len() > 0 {
        let w = cur;
        let ghost before = char_vec_views(done@);
        done.push(w);
        assert(char_vec_views(done@) =~= before.push(w@));
    }
    done
}

/// The parts separated by `sep`.
pub fn join_chars(parts: &Vec<Vec<char>>, sep: &Vec<char>) -> (r: Vec<char>)
    ensures
        r@ == join(char_vec_views(parts@), sep@),
{
    let mut out: Vec<char> = Vec::new();
    let mut i: usize = 0;
    while i < parts.len()
        invariant
            i <= parts.len(),
            out@ == join(char_vec_views(parts@).take(i as int), sep@),
        decreases parts.len() - i,
    {
        let ghost prev = char_vec_views(parts@).take(i as int);
        if i > 0 {
            push_all(&mut out, sep);
        }
        push_all(&mut out, &parts[i]);
        assert(char_vec_views(parts@).take(i + 1).drop_last() =~= prev);
        if i == 0 {
            assert(out@ =~= join(char_vec_views(parts@).take(i + 1), sep@));
        }
        i = i + 1;
    }
    assert(char_vec_views(parts@).take(parts.len() as int) =~= char_vec_views(parts@));
    out
}

/// The decimal digit for `d < 10`.
fn digit(d: u64) -> (c: char)
    requires
        d < 10,
    ensures
        c == digit_char(d as nat),
{
    if d == 0 {
        '0'
    } else if d == 1 {
        '1'
    } else if d == 2 {
        '2'
    } else if d == 3 {
        '3'
    } else if d == 4 {
        '4'
    } else if d == 5 {
        '5'
    } else if d == 6 {
        '6'
    } else if d == 7 {
        '7'
    } else if d == 8 {
        '8'
    } else {
        '9'
    }
}

/// Appends the decimal representation of `n`.
pub fn push_decimal(out: &mut Vec<char>, n: u64)
    ensures
        final(out)@ == old(out)@ + decimal(n as nat),
    decreases n,
{
    if n >= 10 {
        push_decimal(out, n / 10);
    }
    out.push(digit(n % 10));
    assert(out@ =~= old(out)@ + decimal(n as nat));
}

/// Appends the decimal representation of a signed integer.
pub fn push_signed_decimal(out: &mut Vec<char>, n: i64)
    ensures
        final(out)@ == old(out)@ + signed_decimal(n as int),
{
    if n < 0 {
        out.push('-');
        let m: u64 = if n == i64::MIN {
            9223372036854775808u64
        } else {
            (-n) as u64
        };
        push_decimal(out, m);
        assert(out@ =~= old(out)@ + signed_decimal(n as int));
    } else {
        push_decimal(out, n as u64);
    }
}

/// Appends `n` in decimal, padded on the left with zeros to `width` characters.
pub fn push_zero_padded(out: &mut Vec<char>, n: u64, width: usize)
    ensures
        final(out)@ == old(out)@ + zero_padded(decimal(n as nat), width as nat),
{
    let mut digits: Vec<char> = Vec::new();
    push_decimal(&mut digits, n);
    assert(digits@ =~= decimal(n as nat));
    if digits.len() < width {
        let pad = width - digits.len();
        let mut k: usize = 0;
        while k < pad
            invariant
                k <= pad,
                out@ == old(out)@ + Seq::new(k as nat, |i: int| '0'),
            decreases pad - k,
        {
            out.push('0');
            k = k + 1;
            assert(out@ =~= old(out)@ + Seq::new(k as nat, |i: int| '0'));
        }
        push_all(out, &digits);
        assert(out@ =~= old(out)@ + zero_padded(decimal(n as nat), width as nat));
    } else {
        push_all(out, &digits);
    }
}

/// Number of UTF-8 bytes of one character.
fn char_utf8_len(c: char) -> (r: usize)
    ensures
        r == utf8_len(c),
{
    let u = c as u32;
    if u < 0x80 {
        1
    } else if u < 0x800 {
        2
    } else if u < 0x10000 {
        3
    } else {
        4
    }
}

/// Number of UTF-8 bytes of a character sequence, saturated at `usize::MAX`.
pub fn chars_utf8_len(s: &Vec<char>) -> (r: usize)
    ensures
        r == if utf8_byte_len(s@) <= usize::MAX {
            utf8_byte_len(s@)
        } else {
            usize::MAX as nat
        },
{
    let mut total: usize = 0;
    let mut saturated = false;
    let mut i: usize = 0;
    while i < s.len()
        invariant
            i <= s.len(),
            saturated ==> utf8_byte_len(s@.take(i as int)) > usize::MAX,
            !saturated ==> total == utf8_byte_len(s@.take(i as int)),
        decreases s.len() - i,
    {
        assert(s@.take(i + 1).drop_last() =~= s@.take(i as int));
        let l = char_utf8_len(s[i]);
        if !saturated {
            if total <= usize::MAX - l {
                total = total + l;
            } else {
                saturated = true;
            }
        }
        i = i + 1;
    }
    assert(s@.take(s.len() as int) =~= s@);
    if saturated {
        usize::MAX
    } else {
        total
    }
}

/// Whether `a` comes strictly before `b` in lexicographic order.
pub fn chars_lt(a: &Vec<char>, b: &Vec<char>) -> (r: bool)
    ensures
        r == seq_lt(a@, b@),
{
    let mut i: usize = 0;
    assert(a@.skip(0) =~= a@);
    assert(b@.skip(0) =~= b@);
    loop
        invariant
            i <= a.len(),
            i <= b.len(),
            seq_lt(a@, b@) == seq_lt(a@.skip(i as int), b@.skip(i as int)),
        decreases a.len() - i,
    {
        if i == a.len() {
            return i < b.len();
        }
        if i == b.len() {
            return false;
        }
        if a[i] != b[i] {
            return a[i] < b[i];
        }
        assert(a@.skip(i as int).drop_first() =~= a@.skip(i + 1));
        assert(b@.skip(i as int).drop_first() =~= b@.skip(i + 1));
        i = i + 1;
    }
}

/// Whether string `a` comes strictly before string `b` in lexicographic order.
pub fn str_lt(a: &str, b: &str) -> (r: bool)
    ensures
        r == seq_lt(a@, b@),
{
    let x = str_chars(a);
    let y = str_chars(b);
    chars_lt(&x, &y)
}

/// A string without its trailing white space (`str::trim_end`).
pub fn trim_end_string(s: &str) -> (r: String)
    ensures
        r@ == trim_end_by(s@, CharClass::WhiteSpace),
{
    let c = str_chars(s);
    let j = skip_class_backward(&c, 0, CharClass::WhiteSpace);
    assert(c@.skip(0) =~= c@);
    let kept = sub_chars(&c, 0, j);
    string_from_chars(kept.as_slice())
}

/// A string slice without leading and trailing characters of class `k`, borrowed from `s`.
pub fn trim_slice_by(s: &str, k: CharClass) -> (r: &str)
    ensures
        r@ == trim_by(s@, k),
{
    let c = str_chars(s);
    let i = skip_class_forward(&c, k);
    let j = skip_class_backward(&c, i, k);
    s.substring_char(i, j)
}

/// A string slice without leading and trailing white space, borrowed from `s` (`str::trim`).
pub fn trim_slice(s: &str) -> (r: &str)
    ensures
        r@ == trim(s@),
{
    trim_slice_by(s, CharClass::WhiteSpace)
}

/// Whether `s` begins with `prefix` (`str::starts_with`).
pub fn str_starts_with(s: &str, prefix: &str) -> (r: bool)
    ensures
        r == has_prefix(s@, prefix@),
{
    let a = str_chars(s);
    let b = str_chars(prefix);
    chars_has_prefix(&a, &b)
}

/// `s` without its first `n` characters, borrowed from `s`.
pub fn skip_prefix_chars(s: &str, n: usize) -> (r: &str)
    requires
        n <= s@.len(),
    ensures
        r@ == s@.skip(n as int),
{
    let len = s.unicode_len();
    let r = s.substring_char(n, len);
    assert(r@ =~= s@.skip(n as int));
    r
}

/// `s` without `prefix` when it begins with it (`str::strip_prefix`).
pub fn strip_prefix_str<'a>(s: &'a str, prefix: &str) -> (r: Option<&'a str>)
    ensures
        has_prefix(s@, prefix@) ==> (r matches Some(t) && t@ == s@.skip(prefix@.len() as int)),
        !has_prefix(s@, prefix@) ==> r is None,
{
    if str_starts_with(s, prefix) {
        let n = prefix.unicode_len();
        Some(skip_prefix_chars(s, n))
    } else {
        None
    }
}

/// A string built by concatenating the given pieces.
pub fn concat_strs(pieces: &[&str]) -> (r: String)
    ensures
        r@ == join(Seq::new(pieces@.len(), |i: int| pieces@[i]@), Seq::empty()),
{
    let mut out: Vec<char> = Vec::new();
    let mut i: usize = 0;
    while i < pieces.len()
        invariant
            i <= pieces@.len(),
            out@ == join(Seq::new(i as nat, |j: int| pieces@[j]@), Seq::empty()),
        decreases pieces@.len() - i,
    {
        let ghost prev = Seq::new(i as nat, |j: int| pieces@[j]@);
        push_str(&mut out, pieces[i]);
        let ghost next = Seq::new((i + 1) as nat, |j: int| pieces@[j]@);
        assert(next.drop_last() =~= prev);
        if i == 0 {
            assert(out@ =~= join(next, Seq::empty()));
        } else {
            assert(out@ =~= join(prev, Seq::empty()) + Seq::<char>::empty() + next.last());
        }
        i = i + 1;
    }
    string_from_chars(out.as_slice())
}

/// `s` split at its first `c`, when it has one.
pub fn split_once_chars(s: &Vec<char>, c: char) -> (r: Option<(Vec<char>, Vec<char>)>)
    ensures
        match r {
            Some((a, b)) => split_once_char(s@, c) == Some((a@, b@)),
            None => split_once_char(s@, c) is None,
        },
{
    let mut i: usize = 0;
    while i < s.len()
        invariant
            i <= s.len(),
            forall|j: int| 0 <= j < i ==> s@[j] != c,
        decreases s.len() - i,
    {
        if s[i] == c {
            let a = sub_chars(s, 0, i);
            let b = sub_chars(s, i + 1, s.len());
            proof {
                assert(s@[i as int] == c);
                assert(exists|k: int|
                    0 <= k < s@.len() && s@[k] == c && forall|j: int| 0 <= j < k ==> s@[j] != c);
                let k = choose|k: int|
                    0 <= k < s@.len() && s@[k] == c && forall|j: int| 0 <= j < k ==> s@[j] != c;
                assert(k == i);
                assert(a@ =~= s@.take(i as int));
                assert(b@ =~= s@.skip(i + 1));
            }
            return Some((a, b));
        }
        i = i + 1;
    }
    None
}

/// Whether two texts are equal up to ASCII case (`str::eq_ignore_ascii_case`).
pub fn eq_ignore_case_chars(a: &Vec<char>, b: &Vec<char>) -> (r: bool)
    ensures
        r == eq_ignore_ascii_case(a@, b@),
{
    if a.len() != b.len() {
        return false;
    }
    let mut i: usize = 0;
    while i < a.len()
        invariant
            i <= a.len() == b.len(),
            forall|j: int| 0 <= j < i ==> ascii_lower(a@[j]) == ascii_lower(b@[j]),
        decreases a.len() - i,
    {
        if char_ascii_lower(a[i]) != char_ascii_lower(b[i]) {
            return false;
        }
        i = i + 1;
    }
    true
}

} // verus!
