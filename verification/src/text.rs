//! Text primitives: the string operations that SIP and SDP parsing is made of, on slices of
//! characters, each with a mathematical description over `Seq<char>`.
use vstd::prelude::*;
use vstd::slice::slice_subrange;
use vstd::string::*;

verus! {

/// `String::push`: appends one character to the end of the string.
pub assume_specification[ String::push ](s: &mut String, c: char)
    ensures
        final(s)@ == old(s)@.push(c),
;

/// A run of text.
pub type Text = Seq<char>;

// ---------------------------------------------------------------------------------------------
// Characters

/// The characters with the Unicode property `White_Space`.
pub open spec fn is_white(c: char) -> bool {
    ||| '\u{9}' <= c <= '\u{d}'
    ||| c == ' '
    ||| c == '\u{85}'
    ||| c == '\u{a0}'
    ||| c == '\u{1680}'
    ||| '\u{2000}' <= c <= '\u{200a}'
    ||| c == '\u{2028}'
    ||| c == '\u{2029}'
    ||| c == '\u{202f}'
    ||| c == '\u{205f}'
    ||| c == '\u{3000}'
}

/// Whether `c` is white space.
pub fn white(c: char) -> (r: bool)
    ensures
        r == is_white(c),
{
    ('\u{9}' <= c && c <= '\u{d}') || c == ' ' || c == '\u{85}' || c == '\u{a0}' || c == '\u{1680}'
        || ('\u{2000}' <= c && c <= '\u{200a}') || c == '\u{2028}' || c == '\u{2029}' || c
        == '\u{202f}' || c == '\u{205f}' || c == '\u{3000}'
}

/// The characters of `s`, in order.
pub fn chars_of(s: &str) -> (v: Vec<char>)
    ensures
        v@ == s@,
{
    let mut v: Vec<char> = Vec::new();
    for c in it: s.chars()
        invariant
            v@ == it.seq().take(it.index()),
            it.seq() == s@,
    {
        v.push(c);
    }
    v
}

/// The string that `v` spells.
pub fn string_of(v: &[char]) -> (s: String)
    ensures
        s@ == v@,
{
    let mut s = String::new();
    let mut i: usize = 0;
    while i < v.len()
        invariant
            i <= v@.len(),
            s@ == v@.take(i as int),
        decreases v@.len() - i,
    {
        s.push(v[i]);
        i = i + 1;
    }
    s
}

// ---------------------------------------------------------------------------------------------
// Trimming

/// `s` without the leading characters that satisfy `p`.
pub open spec fn strip_start(s: Text, p: spec_fn(char) -> bool) -> Text
    decreases s.len(),
{
    if s.len() > 0 && p(s[0]) {
        strip_start(s.drop_first(), p)
    } else {
        s
    }
}

/// `s` without the trailing characters that satisfy `p`.
pub open spec fn strip_end(s: Text, p: spec_fn(char) -> bool) -> Text
    decreases s.len(),
{
    if s.len() > 0 && p(s.last()) {
        strip_end(s.drop_last(), p)
    } else {
        s
    }
}

/// `s` without the characters at either end that satisfy `p`.
pub open spec fn strip_both(s: Text, p: spec_fn(char) -> bool) -> Text {
    strip_end(strip_start(s, p), p)
}

/// `s` without the white space at either end.
pub open spec fn trimmed(s: Text) -> Text {
    strip_both(s, |c: char| is_white(c))
}

/// `s` without the double quotes at either end.
pub open spec fn unquoted(s: Text) -> Text {
    strip_both(s, |c: char| c == '"')
}

/// The part of `s` between the white space at its ends.
pub fn trim(s: &[char]) -> (r: &[char])
    ensures
        r@ == trimmed(s@),
{
    let ghost p = |c: char| is_white(c);
    let mut a: usize = 0;
    assert(s@.skip(0) == s@);
    while a < s.len() && white(s[a])
        invariant
            a <= s@.len(),
            p == (|c: char| is_white(c)),
            strip_start(s@, p) == strip_start(s@.skip(a as int), p),
        decreases s@.len() - a,
    {
        proof {
            assert(s@.skip(a as int).drop_first() == s@.skip(a + 1));
        }
        a = a + 1;
    }
    let mut b: usize = s.len();
    assert(strip_start(s@, p) == s@.subrange(a as int, b as int));
    while a < b && white(s[b - 1])
        invariant
            a <= b <= s@.len(),
            p == (|c: char| is_white(c)),
            strip_both(s@, p) == strip_end(s@.subrange(a as int, b as int), p),
        decreases b - a,
    {
        proof {
            assert(s@.subrange(a as int, b as int).drop_last() == s@.subrange(
                a as int,
                b - 1,
            ));
        }
        b = b - 1;
    }
    slice_subrange(s, a, b)
}

/// The part of `s` between the double quotes at its ends.
pub fn unquote(s: &[char]) -> (r: &[char])
    ensures
        r@ == unquoted(s@),
{
    let ghost p = |c: char| c == '"';
    let mut a: usize = 0;
    assert(s@.skip(0) == s@);
    while a < s.len() && s[a] == '"'
        invariant
            a <= s@.len(),
            p == (|c: char| c == '"'),
            strip_start(s@, p) == strip_start(s@.skip(a as int), p),
        decreases s@.len() - a,
    {
        proof {
            assert(s@.skip(a as int).drop_first() == s@.skip(a + 1));
        }
        a = a + 1;
    }
    let mut b: usize = s.len();
    assert(strip_start(s@, p) == s@.subrange(a as int, b as int));
    while a < b && s[b - 1] == '"'
        invariant
            a <= b <= s@.len(),
            p == (|c: char| c == '"'),
            strip_both(s@, p) == strip_end(s@.subrange(a as int, b as int), p),
        decreases b - a,
    {
        proof {
            assert(s@.subrange(a as int, b as int).drop_last() == s@.subrange(
                a as int,
                b - 1,
            ));
        }
        b = b - 1;
    }
    slice_subrange(s, a, b)
}

// ---------------------------------------------------------------------------------------------
// Searching and splitting

/// Whether `s` begins with `prefix`.
pub fn starts_with(s: &[char], prefix: &[char]) -> (r: bool)
    ensures
        r == prefix@.is_prefix_of(s@),
{
    if prefix.len() > s.len() {
        return false;
    }
    let mut i: usize = 0;
    while i < prefix.len()
        invariant
            i <= prefix@.len() <= s@.len(),
            forall|j: int| 0 <= j < i ==> s@[j] == prefix@[j],
        decreases prefix@.len() - i,
    {
        if s[i] != prefix[i] {
            assert(s@.subrange(0, prefix@.len() as int)[i as int] != prefix@[i as int]);
            return false;
        }
        i = i + 1;
    }
    assert(prefix@ == s@.subrange(0, prefix@.len() as int));
    true
}

/// The least position at which `pattern` occurs in `s`.
pub open spec fn position(s: Text, pattern: Text) -> Option<int>
    decreases s.len(),
{
    if pattern.is_prefix_of(s) {
        Some(0)
    } else if s.len() == 0 {
        None
    } else {
        match position(s.drop_first(), pattern) {
            Some(i) => Some(i + 1),
            None => None,
        }
    }
}

/// Where `position` points, the pattern lies within the text, and no occurrence comes sooner.
pub proof fn lemma_position(s: Text, pattern: Text)
    ensures
        position(s, pattern) matches Some(i) ==> 0 <= i && i + pattern.len() <= s.len()
            && s.subrange(i, i + pattern.len()) == pattern,
        position(s, pattern) matches Some(i) ==> forall|j: int|
            0 <= j < i ==> !#[trigger] pattern.is_prefix_of(s.skip(j)),
        position(s, pattern) is None ==> forall|j: int|
            0 <= j <= s.len() ==> !#[trigger] pattern.is_prefix_of(s.skip(j)),
    decreases s.len(),
{
    assert(s.skip(0) == s);
    if !pattern.is_prefix_of(s) && s.len() > 0 {
        let t = s.drop_first();
        lemma_position(t, pattern);
        if let Some(i) = position(t, pattern) {
            assert(s.subrange(i + 1, i + 1 + pattern.len()) == t.subrange(i, i + pattern.len()));
        }
        assert forall|j: int| 1 <= j <= s.len() implies s.skip(j) == #[trigger] t.skip(j - 1) by {
            assert(s.skip(j) =~= t.skip(j - 1));
        }
        assert forall|j: int|
            0 <= j <= s.len() && pattern.is_prefix_of(#[trigger] s.skip(j)) implies j >= 1
            && pattern.is_prefix_of(t.skip(j - 1)) by {
            if j >= 1 {
                assert(s.skip(j) == t.skip(j - 1));
            }
        }
    }
}

/// Finds the first occurrence of `pattern`.
pub fn find(s: &[char], pattern: &[char]) -> (r: Option<usize>)
    ensures
        match r {
            Some(i) => position(s@, pattern@) == Some(i as int) && i + pattern@.len() <= s@.len(),
            None => position(s@, pattern@) is None,
        },
{
    proof {
        lemma_position(s@, pattern@);
        assert(s@.skip(0) == s@);
    }
    let mut i: usize = 0;
    loop
        invariant
            i <= s@.len(),
            match position(s@.skip(i as int), pattern@) {
                Some(k) => position(s@, pattern@) == Some(k + i),
                None => position(s@, pattern@) is None,
            },
            position(s@, pattern@) matches Some(k) ==> 0 <= k && k + pattern@.len() <= s@.len(),
        decreases s@.len() - i,
    {
        if starts_with(slice_subrange(s, i, s.len()), pattern) {
            return Some(i);
        }
        if i == s.len() {
            return None;
        }
        proof {
            assert(s@.skip(i as int).drop_first() == s@.skip(i + 1));
        }
        i = i + 1;
    }
}

/// The text before and the text after the first occurrence of `pattern`.
pub open spec fn halves(s: Text, pattern: Text) -> Option<(Text, Text)> {
    match position(s, pattern) {
        Some(i) => Some((s.take(i), s.skip(i + pattern.len()))),
        None => None,
    }
}

/// Splits at the first occurrence of `pattern`.
pub fn split_once<'a>(s: &'a [char], pattern: &[char]) -> (r: Option<(&'a [char], &'a [char])>)
    ensures
        match r {
            Some((a, b)) => halves(s@, pattern@) == Some((a@, b@)),
            None => halves(s@, pattern@) is None,
        },
{
    let n: usize = s.len();
    match find(s, pattern) {
        Some(i) => Some(
            (slice_subrange(s, 0, i), slice_subrange(s, i + pattern.len(), n)),
        ),
        None => None,
    }
}

/// `s` without `prefix`, where it begins with it.
pub open spec fn after_prefix(s: Text, prefix: Text) -> Option<Text> {
    if prefix.is_prefix_of(s) {
        Some(s.skip(prefix.len() as int))
    } else {
        None
    }
}

/// Removes `prefix` from the front, where it is there.
pub fn strip_prefix<'a>(s: &'a [char], prefix: &[char]) -> (r: Option<&'a [char]>)
    ensures
        match r {
            Some(t) => after_prefix(s@, prefix@) == Some(t@),
            None => after_prefix(s@, prefix@) is None,
        },
{
    if starts_with(s, prefix) {
        Some(slice_subrange(s, prefix.len(), s.len()))
    } else {
        None
    }
}

/// The pieces of `s` between the occurrences of `sep`: one more than there are of them.
pub open spec fn pieces(s: Text, sep: char) -> Seq<Text>
    decreases s.len(),
{
    match position(s, seq![sep]) {
        Some(i) if 0 <= i < s.len() => seq![s.take(i)] + pieces(s.skip(i + 1), sep),
        _ => seq![s],
    }
}

/// The texts that a list of slices spells.
pub open spec fn spelled(v: Seq<&[char]>) -> Seq<Text> {
    Seq::new(v.len(), |i: int| v[i]@)
}

/// Splits at every occurrence of `sep`.
pub fn split<'a>(s: &'a [char], sep: char) -> (r: Vec<&'a [char]>)
    ensures
        spelled(r@) == pieces(s@, sep),
{
    let mut out: Vec<&'a [char]> = Vec::new();
    let mut rest: &'a [char] = s;
    let pat: Vec<char> = vec![sep];
    loop
        invariant
            pat@ == seq![sep],
            pieces(s@, sep) == spelled(out@) + pieces(rest@, sep),
        decreases rest@.len(),
    {
        let ghost before = out@;
        let n: usize = rest.len();
        match find(rest, &pat) {
            Some(i) => {
                let head = slice_subrange(rest, 0, i);
                let tail = slice_subrange(rest, i + 1, n);
                out.push(head);
                proof {
                    assert(spelled(out@) == spelled(before) + seq![head@]);
                    assert(spelled(before) + (seq![head@] + pieces(tail@, sep)) == spelled(before)
                        + seq![head@] + pieces(tail@, sep));
                }
                rest = tail;
            },
            None => {
                out.push(rest);
                proof {
                    assert(spelled(out@) == spelled(before) + seq![rest@]);
                }
                return out;
            },
        }
    }
}

/// The lines of `s`: what ends at a line feed, without it and without one carriage return
/// before it, and what follows the last line feed unless it is empty.
pub open spec fn lines_of(s: Text) -> Seq<Text>
    decreases s.len(),
{
    match position(s, seq!['\n']) {
        Some(i) if 0 <= i < s.len() => seq![without_cr(s.take(i))] + lines_of(s.skip(i + 1)),
        _ => if s.len() == 0 {
            Seq::empty()
        } else {
            seq![s]
        },
    }
}

/// `s` without one carriage return at its end.
pub open spec fn without_cr(s: Text) -> Text {
    if s.len() > 0 && s.last() == '\r' {
        s.drop_last()
    } else {
        s
    }
}

/// Splits into lines.
pub fn lines<'a>(s: &'a [char]) -> (r: Vec<&'a [char]>)
    ensures
        spelled(r@) == lines_of(s@),
{
    let mut out: Vec<&'a [char]> = Vec::new();
    let mut rest: &'a [char] = s;
    let pat: Vec<char> = vec!['\n'];
    loop
        invariant
            pat@ == seq!['\n'],
            lines_of(s@) == spelled(out@) + lines_of(rest@),
        decreases rest@.len(),
    {
        let ghost before = out@;
        let n: usize = rest.len();
        match find(rest, &pat) {
            Some(i) => {
                let mut end: usize = i;
                if i > 0 && rest[i - 1] == '\r' {
                    end = i - 1;
                }
                let head = slice_subrange(rest, 0, end);
                let tail = slice_subrange(rest, i + 1, n);
                proof {
                    assert(head@ == without_cr(rest@.take(i as int)));
                }
                out.push(head);
                proof {
                    assert(spelled(out@) == spelled(before) + seq![head@]);
                    assert(spelled(before) + (seq![head@] + lines_of(tail@)) == spelled(before)
                        + seq![head@] + lines_of(tail@));
                }
                rest = tail;
            },
            None => {
                if n > 0 {
                    out.push(rest);
                    proof {
                        assert(spelled(out@) == spelled(before) + seq![rest@]);
                    }
                }
                return out;
            },
        }
    }
}

/// The number of characters before the first white space in `s`.
pub open spec fn run_length(s: Text) -> nat
    decreases s.len(),
{
    if s.len() > 0 && !is_white(s[0]) {
        1 + run_length(s.drop_first())
    } else {
        0
    }
}

/// The words of `s`: its longest runs of characters that are not white space.
pub open spec fn words_of(s: Text) -> Seq<Text>
    decreases s.len(),
{
    if s.len() == 0 {
        Seq::empty()
    } else if is_white(s[0]) {
        words_of(s.drop_first())
    } else {
        let n = run_length(s) as int;
        if 0 < n <= s.len() {
            seq![s.take(n)] + words_of(s.skip(n))
        } else {
            Seq::empty()
        }
    }
}

/// The `n`th word of `s`, counting from zero.
pub open spec fn nth_word(s: Text, n: nat) -> Option<Text> {
    if n < words_of(s).len() {
        Some(words_of(s)[n as int])
    } else {
        None
    }
}

/// Splits into words and returns the bounds of the `n`th.
pub fn word_bounds(s: &[char], n: usize) -> (r: Option<(usize, usize)>)
    ensures
        match r {
            Some((a, b)) => a < b <= s@.len() && nth_word(s@, n as nat) == Some(
                s@.subrange(a as int, b as int),
            ),
            None => nth_word(s@, n as nat) is None,
        },
{
    let len: usize = s.len();
    let mut i: usize = 0;
    let mut seen: usize = 0;
    assert(s@.skip(0) == s@);
    while i < len
        invariant
            len == s@.len(),
            i <= len,
            seen <= i,
            seen <= n,
            seen + words_of(s@.skip(i as int)).len() == words_of(s@).len(),
            forall|k: int|
                0 <= k < words_of(s@.skip(i as int)).len() ==> words_of(s@)[seen + k] == words_of(
                    s@.skip(i as int),
                )[k],
        decreases len - i,
    {
        if white(s[i]) {
            proof {
                assert(s@.skip(i as int).drop_first() == s@.skip(i + 1));
            }
            i = i + 1;
        } else {
            let start: usize = i;
            assert(s@.skip(start as int)[0] == s@[start as int]);
            while i < len && !white(s[i])
                invariant
                    len == s@.len(),
                    start <= i <= len,
                    run_length(s@.skip(start as int)) == (i - start) + run_length(
                        s@.skip(i as int),
                    ),
                decreases len - i,
            {
                proof {
                    assert(s@.skip(i as int).drop_first() == s@.skip(i + 1));
                }
                i = i + 1;
            }
            proof {
                let t = s@.skip(start as int);
                assert(run_length(t) == i - start);
                assert(t.take(i - start) == s@.subrange(start as int, i as int));
                assert(t.skip(i - start) == s@.skip(i as int));
                assert(words_of(t) == seq![t.take(i - start)] + words_of(s@.skip(i as int)));
                assert(words_of(s@)[seen + 0] == words_of(t)[0]);
            }
            if seen == n {
                return Some((start, i));
            }
            proof {
                let t = s@.skip(start as int);
                assert forall|k: int| 0 <= k < words_of(s@.skip(i as int)).len() implies words_of(
                    s@,
                )[seen + 1 + k] == words_of(s@.skip(i as int))[k] by {
                    assert(words_of(s@)[seen + (k + 1)] == words_of(t)[k + 1]);
                }
            }
            seen = seen + 1;
        }
    }
    None
}

/// The `n`th word of `s`, counting from zero.
pub fn word(s: &[char], n: usize) -> (r: Option<&[char]>)
    ensures
        match r {
            Some(w) => nth_word(s@, n as nat) == Some(w@),
            None => nth_word(s@, n as nat) is None,
        },
{
    match word_bounds(s, n) {
        Some((a, b)) => Some(slice_subrange(s, a, b)),
        None => None,
    }
}

/// `s` with every carriage return dropped that a line feed follows.
pub open spec fn unix_lines(s: Text) -> Text
    decreases s.len(),
{
    if s.len() == 0 {
        s
    } else if s.len() >= 2 && s[0] == '\r' && s[1] == '\n' {
        unix_lines(s.drop_first())
    } else {
        seq![s[0]] + unix_lines(s.drop_first())
    }
}

/// Replaces each carriage return and line feed by a line feed.
pub fn normalize_line_ends(s: &[char]) -> (r: Vec<char>)
    ensures
        r@ == unix_lines(s@),
{
    let mut out: Vec<char> = Vec::new();
    let mut i: usize = 0;
    let len: usize = s.len();
    assert(s@.skip(0) == s@);
    while i < len
        invariant
            len == s@.len(),
            i <= len,
            out@ + unix_lines(s@.skip(i as int)) == unix_lines(s@),
        decreases len - i,
    {
        let ghost before = out@;
        let ghost t = s@.skip(i as int);
        let drop = s[i] == '\r' && i + 1 < len && s[i + 1] == '\n';
        if !drop {
            out.push(s[i]);
        }
        proof {
            assert(t.drop_first() == s@.skip(i + 1));
            if !drop {
                assert(out@ + unix_lines(t.drop_first()) == before + (seq![t[0]] + unix_lines(
                    t.drop_first(),
                )));
            }
        }
        i = i + 1;
    }
    assert(s@.skip(len as int).len() == 0);
    assert(out@ + unix_lines(s@.skip(len as int)) == out@);
    out
}

// ---------------------------------------------------------------------------------------------
// Letter case

/// `c`, in lower case if it is an ASCII letter.
pub open spec fn lower_char(c: char) -> char {
    if 'A' <= c <= 'Z' {
        ((c as u32) + 32) as char
    } else {
        c
    }
}

/// `s` with its ASCII letters in lower case.
pub open spec fn lower(s: Text) -> Text {
    s.map_values(|c: char| lower_char(c))
}

/// Whether `a` and `b` differ in nothing but the case of ASCII letters.
pub open spec fn same_ignoring_case(a: Text, b: Text) -> bool {
    lower(a) == lower(b)
}

/// Lower-cases one ASCII letter.
pub fn to_lower_char(c: char) -> (r: char)
    ensures
        r == lower_char(c),
{
    if 'A' <= c && c <= 'Z' {
        let b: u8 = (c as u32 + 32) as u8;
        b as char
    } else {
        c
    }
}

/// Lower-cases the ASCII letters of `s`.
pub fn to_lower(s: &[char]) -> (r: Vec<char>)
    ensures
        r@ == lower(s@),
{
    let mut out: Vec<char> = Vec::new();
    let mut i: usize = 0;
    while i < s.len()
        invariant
            i <= s@.len(),
            out@ == lower(s@).take(i as int),
        decreases s@.len() - i,
    {
        out.push(to_lower_char(s[i]));
        i = i + 1;
    }
    out
}

/// Whether two slices spell the same text.
pub fn same(a: &[char], b: &[char]) -> (r: bool)
    ensures
        r == (a@ == b@),
{
    if a.len() != b.len() {
        return false;
    }
    let mut i: usize = 0;
    while i < a.len()
        invariant
            i <= a@.len() == b@.len(),
            forall|j: int| 0 <= j < i ==> a@[j] == b@[j],
        decreases a@.len() - i,
    {
        if a[i] != b[i] {
            return false;
        }
        i = i + 1;
    }
    assert(a@ == b@);
    true
}

/// Compares without regard to the case of ASCII letters.
pub fn eq_ignore_case(a: &str, b: &str) -> (r: bool)
    ensures
        r == same_ignoring_case(a@, b@),
{
    let x: Vec<char> = to_lower(&chars_of(a));
    let y: Vec<char> = to_lower(&chars_of(b));
    same(&x, &y)
}

// ---------------------------------------------------------------------------------------------
// Numbers

/// The hexadecimal digit of value `n`.
pub open spec fn digit_char(n: nat) -> char {
    if n < 10 {
        (('0' as u32) + n) as char
    } else {
        (('a' as u32) + n - 10) as char
    }
}

/// The digits of `n` in the given base, without leading zeros.
pub open spec fn numeral(n: nat, base: nat) -> Text
    decreases n,
{
    if base < 2 || n < base {
        seq![digit_char(n)]
    } else {
        proof {
            vstd::arithmetic::div_mod::lemma_div_decreases(n as int, base as int);
        }
        numeral(n / base, base).push(digit_char(n % base))
    }
}

/// `n` in decimal.
pub open spec fn decimal(n: nat) -> Text {
    numeral(n, 10)
}

/// The digit of value `n`.
pub fn digit(n: u8) -> (c: char)
    requires
        n < 16,
    ensures
        c == digit_char(n as nat),
{
    if n < 10 {
        (48 + n) as char
    } else {
        (87 + n) as char
    }
}

/// Appends `n` in the given base.
pub fn push_numeral(out: &mut String, n: u64, base: u64)
    requires
        2 <= base <= 16,
    ensures
        final(out)@ == old(out)@ + numeral(n as nat, base as nat),
    decreases n,
{
    if n < base {
        out.push(digit(n as u8));
    } else {
        proof {
            vstd::arithmetic::div_mod::lemma_div_decreases(n as int, base as int);
            vstd::arithmetic::div_mod::lemma_mod_bound(n as int, base as int);
        }
        push_numeral(out, n / base, base);
        out.push(digit((n % base) as u8));
    }
}

/// `n` in decimal.
pub fn decimal_string(n: u64) -> (s: String)
    ensures
        s@ == decimal(n as nat),
{
    let mut s = String::new();
    push_numeral(&mut s, n, 10);
    assert(s@ == decimal(n as nat));
    s
}

/// The value that a run of decimal digits denotes.
pub open spec fn digits_value(s: Text) -> nat
    decreases s.len(),
{
    if s.len() == 0 {
        0
    } else {
        (digits_value(s.drop_last()) * 10 + (s.last() as u32 - '0' as u32)) as nat
    }
}

/// Whether `s` consists of ASCII digits alone.
pub open spec fn all_digits(s: Text) -> bool {
    forall|i: int| 0 <= i < s.len() ==> '0' <= #[trigger] s[i] <= '9'
}

/// The number from 0 to `max` that `s` denotes: one or more ASCII digits, after a plus sign or
/// none.
pub open spec fn number(s: Text, max: nat) -> Option<nat> {
    let d = if s.len() > 0 && s[0] == '+' {
        s.drop_first()
    } else {
        s
    };
    if d.len() > 0 && all_digits(d) && digits_value(d) <= max {
        Some(digits_value(d))
    } else {
        None
    }
}

/// A prefix of a run of digits denotes no more than the whole run.
proof fn lemma_digits_value_prefix(s: Text, k: int)
    requires
        all_digits(s),
        0 <= k <= s.len(),
    ensures
        digits_value(s.take(k)) <= digits_value(s),
    decreases s.len(),
{
    if k < s.len() {
        assert forall|i: int| 0 <= i < s.drop_last().len() implies '0'
            <= #[trigger] s.drop_last()[i] <= '9' by {
            assert('0' <= s[i] <= '9');
        }
        lemma_digits_value_prefix(s.drop_last(), k);
        assert(s.drop_last().take(k) == s.take(k));
        assert('0' <= s[s.len() - 1] <= '9');
    } else {
        assert(s.take(k) == s);
    }
}

/// Whether `s` consists of ASCII digits alone.
pub fn digits_only(s: &[char]) -> (r: bool)
    ensures
        r == all_digits(s@),
{
    let mut i: usize = 0;
    while i < s.len()
        invariant
            i <= s@.len(),
            forall|j: int| 0 <= j < i ==> '0' <= #[trigger] s@[j] <= '9',
        decreases s@.len() - i,
    {
        if !('0' <= s[i] && s[i] <= '9') {
            return false;
        }
        i = i + 1;
    }
    true
}

/// Reads a number from 0 to `max`.
pub fn parse_number(s: &[char], max: u32) -> (r: Option<u32>)
    ensures
        match r {
            Some(n) => n <= max && number(s@, max as nat) == Some(n as nat),
            None => number(s@, max as nat) is None,
        },
{
    let d: &[char] = if s.len() > 0 && s[0] == '+' {
        slice_subrange(s, 1, s.len())
    } else {
        s
    };
    let ghost unsigned = if s@.len() > 0 && s@[0] == '+' {
        s@.drop_first()
    } else {
        s@
    };
    assert(d@ == unsigned);
    if d.len() == 0 || !digits_only(d) {
        return None;
    }
    let mut n: u64 = 0;
    let mut i: usize = 0;
    assert(d@.take(0).len() == 0);
    while i < d.len()
        invariant
            i <= d@.len(),
            all_digits(d@),
            d@.len() > 0,
            d@ == unsigned,
            unsigned == (if s@.len() > 0 && s@[0] == '+' {
                s@.drop_first()
            } else {
                s@
            }),
            n == digits_value(d@.take(i as int)),
            n <= max,
        decreases d@.len() - i,
    {
        let c: char = d[i];
        assert('0' <= d@[i as int] <= '9');
        n = n * 10 + (c as u32 - 48) as u64;
        proof {
            assert(d@.take(i + 1).drop_last() == d@.take(i as int));
            assert(d@.take(i + 1).last() == d@[i as int]);
            lemma_digits_value_prefix(d@, i + 1);
        }
        i = i + 1;
        if n > max as u64 {
            return None;
        }
    }
    assert(d@.take(d@.len() as int) == d@);
    Some(n as u32)
}

} // verus!
