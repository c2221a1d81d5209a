//! Character-level text helpers shared by the parser and the renderers.
//!
//! Strings are modelled by their view, the sequence of their `char`s.
use vstd::prelude::*;

verus! {

/// Appends one character to a string.
///
/// Trusted: calls `String::push`, which std documents as appending the
/// given `char` to the end of the string.
#[verifier::external_body]
pub(crate) fn push_char(s: &mut String, c: char)
    ensures
        final(s)@ == old(s)@.push(c),
{
    s.push(c);
}

/// The characters of a string slice, in order.
pub fn chars_of(s: &str) -> (res: Vec<char>)
    ensures
        res@ == s@,
{
    let mut res: Vec<char> = Vec::new();
    for c in it: s.chars()
        invariant
            res@ == it.seq().take(it.index() as int),
            it.seq() == s@,
    {
        res.push(c);
    }
    res
}

/// A string holding the characters `chars[from..to]`.
pub fn string_from_chars(chars: &Vec<char>, from: usize, to: usize) -> (res: String)
    requires
        from <= to <= chars.len(),
    ensures
        res@ == chars@.subrange(from as int, to as int),
{
    let mut res = String::new();
    let mut i = from;
    while i < to
        invariant
            from <= i <= to <= chars.len(),
            res@ == chars@.subrange(from as int, i as int),
        decreases to - i,
    {
        push_char(&mut res, chars[i]);
        i = i + 1;
    }
    res
}

/// A copy of a string slice as an owned `String`.
pub fn owned(s: &str) -> (res: String)
    ensures
        res@ == s@,
{
    let mut res = String::new();
    res.append(s);
    res
}

/// Digit character for a value below ten.
pub open spec fn digit_char(d: nat) -> char {
    if d == 0 {
        '0'
    } else if d == 1 {
        '1'
    } else if d == 2 {
        '2'
    } else if d == 3 {
        '3'
    } else if d == 4 {
        '4'
    } else if d == 5 {
        '5'
    } else if d == 6 {
        '6'
    } else if d == 7 {
        '7'
    } else if d == 8 {
        '8'
    } else {
        '9'
    }
}

/// Decimal notation of a natural number, as `Display` prints an unsigned integer.
pub open spec fn decimal(n: nat) -> Seq<char>
    decreases n,
{
    if n < 10 {
        seq![digit_char(n)]
    } else {
        decimal(n / 10).push(digit_char(n % 10))
    }
}

fn digit_to_char(d: usize) -> (c: char)
    requires
        d < 10,
    ensures
        c == digit_char(d as nat),
{
    if d == 0 {
        '0'
    } else if d == 1 {
        '1'
    } else if d == 2 {
        '2'
    } else if d == 3 {
        '3'
    } else if d == 4 {
        '4'
    } else if d == 5 {
        '5'
    } else if d == 6 {
        '6'
    } else if d == 7 {
        '7'
    } else if d == 8 {
        '8'
    } else {
        '9'
    }
}

/// Appends the decimal notation of `n` to `out`.
pub fn append_decimal(out: &mut String, n: usize)
    ensures
        final(out)@ == old(out)@ + decimal(n as nat),
    decreases n,
{
    if n < 10 {
        push_char(out, digit_to_char(n));
        assert(decimal(n as nat) == seq![digit_char(n as nat)]);
    } else {
        append_decimal(out, n / 10);
        push_char(out, digit_to_char(n % 10));
        assert(decimal(n as nat) == decimal((n / 10) as nat).push(digit_char((n % 10) as nat)));
    }
}

/// `c` repeated `n` times.
pub open spec fn repeat_char(c: char, n: nat) -> Seq<char>
    decreases n,
{
    if n == 0 {
        Seq::empty()
    } else {
        repeat_char(c, (n - 1) as nat).push(c)
    }
}

/// Appends `n` copies of `c` to `out`.
pub fn append_repeat(out: &mut String, c: char, n: usize)
    ensures
        final(out)@ == old(out)@ + repeat_char(c, n as nat),
{
    let mut i: usize = 0;
    while i < n
        invariant
            i <= n,
            out@ == old(out)@ + repeat_char(c, i as nat),
        decreases n - i,
    {
        push_char(out, c);
        i = i + 1;
        assert(repeat_char(c, i as nat) == repeat_char(c, (i - 1) as nat).push(c));
    }
}

/// Three-way lexicographic comparison by character code, as `Ord` orders `str`
/// (byte-wise UTF-8 order coincides with code point order): negative, zero or positive.
pub open spec fn lex_order(a: Seq<char>, b: Seq<char>) -> int
    decreases a.len(),
{
    if a.len() == 0 {
        if b.len() == 0 {
            0
        } else {
            -1
        }
    } else if b.len() == 0 {
        1
    } else if (a[0] as int) < (b[0] as int) {
        -1
    } else if (b[0] as int) < (a[0] as int) {
        1
    } else {
        lex_order(a.drop_first(), b.drop_first())
    }
}

/// Lexicographic comparison of two character sequences (see [`lex_order`]).
pub fn compare_chars(a: &Vec<char>, b: &Vec<char>) -> (res: i8)
    ensures
        res as int == lex_order(a@, b@),
{
    let mut i: usize = 0;
    assert(a@.skip(0) == a@);
    assert(b@.skip(0) == b@);
    while i < a.len() && i < b.len()
        invariant
            i <= a.len(),
            i <= b.len(),
            a@.subrange(0, i as int) == b@.subrange(0, i as int),
            lex_order(a@, b@) == lex_order(a@.skip(i as int), b@.skip(i as int)),
        decreases a.len() - i,
    {
        let x = a[i];
        let y = b[i];
        assert(a@.skip(i as int)[0] == x);
        assert(b@.skip(i as int)[0] == y);
        if x < y {
            return -1;
        }
        if y < x {
            return 1;
        }
        assert(a@.skip(i as int).drop_first() == a@.skip(i + 1));
        assert(b@.skip(i as int).drop_first() == b@.skip(i + 1));
        assert(x == y) by {
            assert(!(x < y) && !(y < x));
        }
        assert(a@.subrange(0, i + 1) == a@.subrange(0, i as int).push(x));
        assert(b@.subrange(0, i + 1) == b@.subrange(0, i as int).push(y));
        i = i + 1;
    }
    if i < a.len() {
        1
    } else if i < b.len() {
        -1
    } else {
        0
    }
}

/// Lemma: equal sequences compare as equal, and only they do.
pub proof fn lemma_lex_order_zero(a: Seq<char>, b: Seq<char>)
    ensures
        lex_order(a, b) == 0 <==> a == b,
    decreases a.len(),
{
    if a.len() == 0 || b.len() == 0 {
        if a.len() != b.len() {
            assert(a != b);
        } else {
            assert(a =~= b);
        }
    } else {
        lemma_lex_order_zero(a.drop_first(), b.drop_first());
        assert(a == seq![a[0]] + a.drop_first());
        assert(b == seq![b[0]] + b.drop_first());
        if a == b {
            assert(a.drop_first() == b.drop_first());
        }
        if lex_order(a, b) == 0 {
            assert((a[0] as int) == (b[0] as int));
            assert(a[0] == b[0]);
            assert(a.drop_first() == b.drop_first());
        }
    }
}

/// Lemma: the comparison is antisymmetric.
pub proof fn lemma_lex_order_antisym(a: Seq<char>, b: Seq<char>)
    ensures
        lex_order(a, b) == -lex_order(b, a),
        -1 <= lex_order(a, b) <= 1,
    decreases a.len(),
{
    if a.len() > 0 && b.len() > 0 {
        lemma_lex_order_antisym(a.drop_first(), b.drop_first());
    }
}

/// Lemma: the comparison is transitive.
pub proof fn lemma_lex_order_trans(a: Seq<char>, b: Seq<char>, c: Seq<char>)
    requires
        lex_order(a, b) <= 0,
        lex_order(b, c) <= 0,
    ensures
        lex_order(a, c) <= 0,
    decreases a.len(),
{
    if a.len() > 0 && b.len() > 0 && c.len() > 0 {
        if a[0] == b[0] && b[0] == c[0] {
            lemma_lex_order_trans(a.drop_first(), b.drop_first(), c.drop_first());
        }
    }
}

/// Whether two string slices hold the same characters.
pub fn text_eq(a: &str, b: &str) -> (res: bool)
    ensures
        res == (a@ == b@),
{
    let x = chars_of(a);
    let y = chars_of(b);
    let r = compare_chars(&x, &y);
    proof {
        lemma_lex_order_zero(a@, b@);
    }
    r == 0
}

/// Whether `needle` occurs in `hay` at position `i`.
pub open spec fn occurs_at(hay: Seq<char>, needle: Seq<char>, i: int) -> bool {
    0 <= i && i + needle.len() <= hay.len() && hay.subrange(i, i + needle.len()) == needle
}

/// Whether `needle` occurs somewhere in `hay` (as `str::contains` with a string pattern).
pub open spec fn contains_seq(hay: Seq<char>, needle: Seq<char>) -> bool {
    exists|i: int| occurs_at(hay, needle, i)
}

fn occurs_at_exec(h: &Vec<char>, n: &Vec<char>, i: usize) -> (res: bool)
    requires
        i + n.len() <= h.len(),
    ensures
        res == occurs_at(h@, n@, i as int),
{
    let mut j: usize = 0;
    while j < n.len() && h[i + j] == n[j]
        invariant
            i + n.len() <= h.len(),
            j <= n.len(),
            forall|k: int| 0 <= k < j ==> h@[i + k] == n@[k],
        decreases n.len() - j,
    {
        j = j + 1;
    }
    if j == n.len() {
        assert(h@.subrange(i as int, i + n.len()) =~= n@);
        true
    } else {
        assert(h@.subrange(i as int, i + n.len())[j as int] == h@[i + j]);
        false
    }
}

/// Whether `needle` occurs in `hay`.
pub fn contains_text(hay: &str, needle: &str) -> (res: bool)
    ensures
        res == contains_seq(hay@, needle@),
{
    let h = chars_of(hay);
    let n = chars_of(needle);
    if n.len() > h.len() {
        assert forall|i: int| !occurs_at(hay@, needle@, i) by {}
        return false;
    }
    if n.len() == 0 {
        assert(hay@.subrange(0, 0) =~= needle@);
        assert(occurs_at(hay@, needle@, 0));
        return true;
    }
    let last = h.len() - n.len();
    let mut i: usize = 0;
    while i <= last
        invariant
            h@ == hay@,
            n@ == needle@,
            last == h.len() - n.len(),
            0 < n.len() <= h.len(),
            i <= last + 1,
            forall|k: int| 0 <= k < i ==> !occurs_at(hay@, needle@, k),
        decreases last + 1 - i,
    {
        if occurs_at_exec(&h, &n, i) {
            return true;
        }
        i = i + 1;
    }
    assert forall|k: int| !occurs_at(hay@, needle@, k) by {
        if occurs_at(hay@, needle@, k) {
            assert(k <= last);
        }
    }
    false
}

/// Unicode `White_Space`, the property that `char::is_whitespace` tests.
pub open spec fn is_white_space(c: char) -> bool {
    ||| ('\u{9}' <= c && c <= '\u{d}')
    ||| c == ' '
    ||| c == '\u{85}'
    ||| c == '\u{a0}'
    ||| c == '\u{1680}'
    ||| ('\u{2000}' <= c && c <= '\u{200a}')
    ||| c == '\u{2028}'
    ||| c == '\u{2029}'
    ||| c == '\u{202f}'
    ||| c == '\u{205f}'
    ||| c == '\u{3000}'
}

/// Whether a character is white space (see [`is_white_space`]).
pub fn char_is_white_space(c: char) -> (res: bool)
    ensures
        res == is_white_space(c),
{
    ('\u{9}' <= c && c <= '\u{d}') || c == ' ' || c == '\u{85}' || c == '\u{a0}' || c
        == '\u{1680}' || ('\u{2000}' <= c && c <= '\u{200a}') || c == '\u{2028}' || c
        == '\u{2029}' || c == '\u{202f}' || c == '\u{205f}' || c == '\u{3000}'
}

/// Index of the first character that is not white space (the length if there is none).
pub open spec fn leading_space_len(s: Seq<char>) -> int
    decreases s.len(),
{
    if s.len() == 0 {
        0
    } else if is_white_space(s[0]) {
        1 + leading_space_len(s.drop_first())
    } else {
        0
    }
}

/// `str::trim_start`: the text without its leading white space.
pub open spec fn trim_start_seq(s: Seq<char>) -> Seq<char> {
    s.skip(leading_space_len(s))
}

/// Whether the text holds only white space (`str::trim` gives the empty string).
pub open spec fn is_blank_seq(s: Seq<char>) -> bool {
    forall|i: int| 0 <= i < s.len() ==> is_white_space(#[trigger] s[i])
}

/// Lemma: the leading white space is a prefix of white-space characters,
/// followed by a character that is not white space, if any.
pub proof fn lemma_leading_space_len(s: Seq<char>)
    ensures
        0 <= leading_space_len(s) <= s.len(),
        forall|i: int| 0 <= i < leading_space_len(s) ==> is_white_space(#[trigger] s[i]),
        leading_space_len(s) < s.len() ==> !is_white_space(s[leading_space_len(s)]),
    decreases s.len(),
{
    if s.len() > 0 && is_white_space(s[0]) {
        lemma_leading_space_len(s.drop_first());
        assert forall|i: int| 0 <= i < leading_space_len(s) implies is_white_space(#[trigger] s[i]) by {
            if i > 0 {
                assert(s[i] == s.drop_first()[i - 1]);
            }
        }
    }
}

/// Length of the leading white space of a character sequence.
pub fn leading_space_count(chars: &Vec<char>) -> (res: usize)
    ensures
        res == leading_space_len(chars@),
{
    proof {
        lemma_leading_space_len(chars@);
    }
    let mut i: usize = 0;
    while i < chars.len() && char_is_white_space(chars[i])
        invariant
            i <= chars.len(),
            forall|k: int| 0 <= k < i ==> is_white_space(#[trigger] chars@[k]),
        decreases chars.len() - i,
    {
        i = i + 1;
    }
    proof {
        lemma_leading_space_exact(chars@, i as int);
    }
    i
}

proof fn lemma_leading_space_exact(s: Seq<char>, i: int)
    requires
        0 <= i <= s.len(),
        forall|k: int| 0 <= k < i ==> is_white_space(#[trigger] s[k]),
        i == s.len() || !is_white_space(s[i]),
    ensures
        leading_space_len(s) == i,
    decreases s.len(),
{
    if s.len() > 0 {
        if i > 0 {
            assert forall|k: int| 0 <= k < i - 1 implies is_white_space(#[trigger] s.drop_first()[k]) by {
                assert(s.drop_first()[k] == s[k + 1]);
            }
            if i < s.len() {
                assert(s.drop_first()[i - 1] == s[i]);
            }
            lemma_leading_space_exact(s.drop_first(), i - 1);
        }
    }
}

/// Whether the text holds only white space.
pub fn is_blank(s: &str) -> (res: bool)
    ensures
        res == is_blank_seq(s@),
{
    let chars = chars_of(s);
    let n = leading_space_count(&chars);
    proof {
        lemma_leading_space_len(s@);
    }
    n == chars.len()
}

/// Position of the first `'\n'` in `s`, or `s.len()` when there is none.
pub open spec fn newline_pos(s: Seq<char>) -> int
    decreases s.len(),
{
    if s.len() == 0 {
        0
    } else if s[0] == '\n' {
        0
    } else {
        1 + newline_pos(s.drop_first())
    }
}

/// A line without the `'\r'` that ended it, if any.
pub open spec fn strip_cr(line: Seq<char>) -> Seq<char> {
    if line.len() > 0 && line.last() == '\r' {
        line.drop_last()
    } else {
        line
    }
}

/// The lines of a text, as `str::lines` yields them: split at each `'\n'`,
/// dropping a `'\r'` just before it; the last line needs no terminator, and
/// nothing follows a final terminator.
pub open spec fn text_lines(s: Seq<char>) -> Seq<Seq<char>>
    decreases s.len(),
{
    if s.len() == 0 {
        Seq::empty()
    } else {
        let k = newline_pos(s);
        proof {
            lemma_newline_pos_bounds(s);
        }
        if k >= s.len() {
            seq![s]
        } else {
            seq![strip_cr(s.subrange(0, k))] + text_lines(s.subrange(k + 1, s.len() as int))
        }
    }
}

/// The view of an optional string.
pub open spec fn opt_text(s: Option<String>) -> Option<Seq<char>> {
    match s {
        Some(s) => Some(s@),
        None => None,
    }
}

/// The views of a sequence of strings.
pub open spec fn views_of(v: Seq<String>) -> Seq<Seq<char>> {
    v.map_values(|x: String| x@)
}

/// Lemma: the position of the first line break lies within the text.
pub proof fn lemma_newline_pos_bounds(s: Seq<char>)
    ensures
        0 <= newline_pos(s) <= s.len(),
    decreases s.len(),
{
    if s.len() > 0 && s[0] != '\n' {
        lemma_newline_pos_bounds(s.drop_first());
    }
}

proof fn lemma_newline_pos(s: Seq<char>, j: int)
    requires
        0 <= j <= s.len(),
        forall|k: int| 0 <= k < j ==> s[k] != '\n',
        j == s.len() || s[j] == '\n',
    ensures
        newline_pos(s) == j,
    decreases s.len(),
{
    if s.len() > 0 && j > 0 {
        assert forall|k: int| 0 <= k < j - 1 implies s.drop_first()[k] != '\n' by {
            assert(s.drop_first()[k] == s[k + 1]);
        }
        if j < s.len() {
            assert(s.drop_first()[j - 1] == s[j]);
        }
        lemma_newline_pos(s.drop_first(), j - 1);
    }
}

/// Lemma: a text that holds a line break has its first one before its end.
proof fn lemma_newline_pos_found(s: Seq<char>, j: int)
    requires
        0 <= j < s.len(),
        s[j] == '\n',
    ensures
        newline_pos(s) <= j,
    decreases s.len(),
{
    if s[0] != '\n' {
        assert(s.drop_first()[j - 1] == s[j]);
        lemma_newline_pos_found(s.drop_first(), j - 1);
    }
}

/// Lemma: text after a line break does not move the first line break.
proof fn lemma_newline_pos_append(s: Seq<char>, t: Seq<char>)
    requires
        newline_pos(s) < s.len(),
    ensures
        newline_pos(s + t) == newline_pos(s),
    decreases s.len(),
{
    if s[0] != '\n' {
        assert((s + t).drop_first() == s.drop_first() + t);
        lemma_newline_pos_append(s.drop_first(), t);
    }
}

/// Lemma: in a text without line breaks followed by one, the first line
/// break is that one.
proof fn lemma_newline_pos_after_line(line: Seq<char>, t: Seq<char>)
    requires
        !line.contains('\n'),
    ensures
        newline_pos(line + seq!['\n'] + t) == line.len(),
    decreases line.len(),
{
    let s = line + seq!['\n'] + t;
    if line.len() > 0 {
        assert(line[0] != '\n') by {
            assert(line.contains(line[0]));
        }
        assert(s.drop_first() == line.drop_first() + seq!['\n'] + t);
        assert(!line.drop_first().contains('\n')) by {
            if line.drop_first().contains('\n') {
                let k = choose|k: int| 0 <= k < line.drop_first().len() && line.drop_first()[k] == '\n';
                assert(line[k + 1] == '\n');
            }
        }
        lemma_newline_pos_after_line(line.drop_first(), t);
    }
}

/// Lemma: the lines of a text that is empty or ends with a line break,
/// followed by more text, are its lines followed by those of the rest.
pub proof fn lemma_text_lines_append(s: Seq<char>, t: Seq<char>)
    requires
        s.len() == 0 || s.last() == '\n',
    ensures
        text_lines(s + t) == text_lines(s) + text_lines(t),
    decreases s.len(),
{
    if s.len() == 0 {
        assert(s + t == t);
    } else {
        lemma_newline_pos_found(s, s.len() - 1);
        lemma_newline_pos_bounds(s);
        let k = newline_pos(s);
        lemma_newline_pos_append(s, t);
        let st = s + t;
        let r = s.subrange(k + 1, s.len() as int);
        assert(st.subrange(0, k) == s.subrange(0, k));
        assert(st.subrange(k + 1, st.len() as int) == r + t);
        if r.len() > 0 {
            assert(r.last() == s.last());
        }
        lemma_text_lines_append(r, t);
        assert(text_lines(st) == seq![strip_cr(s.subrange(0, k))] + text_lines(r + t));
        assert(text_lines(s) == seq![strip_cr(s.subrange(0, k))] + text_lines(r));
        assert(text_lines(st) == text_lines(s) + text_lines(t));
    }
}

/// Lemma: a line without line breaks, ended by one, is the first line of what
/// follows it, and the rest are the lines of the following text.
pub proof fn lemma_text_lines_line_first(line: Seq<char>, t: Seq<char>)
    requires
        !line.contains('\n'),
    ensures
        text_lines(line + seq!['\n'] + t) == seq![strip_cr(line)] + text_lines(t),
{
    let s = line + seq!['\n'] + t;
    lemma_newline_pos_after_line(line, t);
    assert(s.subrange(0, line.len() as int) == line);
    assert(s.subrange(line.len() as int + 1, s.len() as int) == t);
}

/// The lines of a text (see [`text_lines`]).
pub fn split_lines(text: &str) -> (res: Vec<String>)
    ensures
        views_of(res@) == text_lines(text@),
{
    let chars = chars_of(text);
    let ghost s = text@;
    let mut res: Vec<String> = Vec::new();
    let mut start: usize = 0;
    let mut j: usize = 0;
    assert(s.subrange(0, s.len() as int) == s);
    assert(views_of(res@) =~= Seq::<Seq<char>>::empty());
    assert(Seq::<Seq<char>>::empty() + text_lines(s) == text_lines(s));
    while j < chars.len()
        invariant
            chars@ == s,
            start <= j <= chars.len(),
            forall|k: int| start <= k < j ==> s[k] != '\n',
            views_of(res@) + text_lines(s.subrange(start as int, s.len() as int)) == text_lines(s),
        decreases chars.len() - j,
    {
        if chars[j] == '\n' {
            let ghost rest = s.subrange(start as int, s.len() as int);
            proof {
                assert forall|k: int| 0 <= k < j - start implies rest[k] != '\n' by {
                    assert(rest[k] == s[start + k]);
                }
                assert(rest[j - start] == s[j as int]);
                lemma_newline_pos(rest, j - start);
                assert(rest.subrange(0, j - start) == s.subrange(start as int, j as int));
                assert(rest.subrange(j - start + 1, rest.len() as int) == s.subrange(
                    j + 1,
                    s.len() as int,
                ));
            }
            let mut end = j;
            if j > start && chars[j - 1] == '\r' {
                end = j - 1;
            }
            let line = string_from_chars(&chars, start, end);
            proof {
                let piece = s.subrange(start as int, j as int);
                if j > start && s[j - 1] == '\r' {
                    assert(piece.drop_last() == s.subrange(start as int, end as int));
                } else {
                    assert(piece == s.subrange(start as int, end as int));
                }
                assert(line@ == strip_cr(piece));
            }
            let ghost before = res@;
            res.push(line);
            proof {
                assert(views_of(res@) == views_of(before).push(line@));
                assert(views_of(res@) + text_lines(s.subrange(j + 1, s.len() as int)) == views_of(
                    before,
                ) + text_lines(rest));
            }
            start = j + 1;
        }
        j = j + 1;
    }
    let ghost rest = s.subrange(start as int, s.len() as int);
    if start < chars.len() {
        proof {
            assert forall|k: int| 0 <= k < rest.len() implies rest[k] != '\n' by {
                assert(rest[k] == s[start + k]);
            }
            lemma_newline_pos(rest, rest.len() as int);
        }
        let line = string_from_chars(&chars, start, chars.len());
        let ghost before = res@;
        res.push(line);
        proof {
            assert(views_of(res@) == views_of(before).push(line@));
            assert(text_lines(rest) == seq![rest]);
        }
    } else {
        proof {
            assert(rest.len() == 0);
            assert(views_of(res@) + Seq::<Seq<char>>::empty() == views_of(res@));
        }
    }
    res
}

} // verus!
