//! Character-level helpers shared by the parsers: whitespace trimming,
//! splitting on separator characters and decimal numbers.
use vstd::prelude::*;

verus! {

broadcast use vstd::string::group_string_axioms;

/// Copies the characters of `s` into a vector.
pub fn chars_of(s: &str) -> (v: Vec<char>)
    ensures
        v@ == s@,
{
    let mut v: Vec<char> = Vec::new();
    for c in it: s.chars()
        invariant
            v@ == it.seq().take(it.index() as int),
    {
        v.push(c);
    }
    v
}

/// The Unicode `White_Space` characters, which `str::trim` removes.
pub open spec fn is_white_space(c: char) -> bool {
    ||| ('\u{9}' <= c && c <= '\u{d}')
    ||| c == ' '
    ||| c == '\u{85}'
    ||| c == '\u{a0}'
    ||| c == '\u{1680}'
    ||| ('\u{2000}' <= c && c <= '\u{200a}')
    ||| c == '\u{2028}'
    ||| c == '\u{2029}'
    ||| c == '\u{202f}'
    ||| c == '\u{205f}'
    ||| c == '\u{3000}'
}

/// Whether `c` is white space.
pub fn white_space(c: char) -> (b: bool)
    ensures
        b == is_white_space(c),
{
    ('\u{9}' <= c && c <= '\u{d}') || c == ' ' || c == '\u{85}' || c == '\u{a0}' || c == '\u{1680}'
        || ('\u{2000}' <= c && c <= '\u{200a}') || c == '\u{2028}' || c == '\u{2029}'
        || c == '\u{202f}' || c == '\u{205f}' || c == '\u{3000}'
}

/// Index of the first character of `s` that is not white space (or its length).
pub open spec fn trim_start_index(s: Seq<char>) -> int
    decreases s.len(),
{
    if s.len() > 0 && is_white_space(s[0]) {
        1 + trim_start_index(s.drop_first())
    } else {
        0
    }
}

/// Index just past the last character of `s` that is not white space (or zero).
pub open spec fn trim_end_index(s: Seq<char>) -> int
    decreases s.len(),
{
    if s.len() > 0 && is_white_space(s.last()) {
        trim_end_index(s.drop_last())
    } else {
        s.len() as int
    }
}

/// `s` without its leading and trailing white space.
pub open spec fn trim_spec(s: Seq<char>) -> Seq<char> {
    let a = trim_start_index(s);
    let b = trim_end_index(s);
    if a >= b { Seq::empty() } else { s.subrange(a, b) }
}

proof fn lemma_trim_start(s: Seq<char>, i: int)
    requires
        0 <= i <= s.len(),
        forall|j: int| 0 <= j < i ==> is_white_space(#[trigger] s[j]),
    ensures
        trim_start_index(s) == i + trim_start_index(s.subrange(i, s.len() as int)),
    decreases i,
{
    if i > 0 {
        assert(is_white_space(s[0]));
        lemma_trim_start(s.drop_first(), i - 1);
        assert(s.drop_first().subrange(i - 1, s.drop_first().len() as int) =~= s.subrange(i, s.len() as int));
    } else {
        assert(s.subrange(0, s.len() as int) =~= s);
    }
}

proof fn lemma_trim_end(s: Seq<char>, i: int)
    requires
        0 <= i <= s.len(),
        forall|j: int| i <= j < s.len() ==> is_white_space(#[trigger] s[j]),
    ensures
        trim_end_index(s) == trim_end_index(s.subrange(0, i)),
    decreases s.len() - i,
{
    if i < s.len() {
        assert(is_white_space(s.last()));
        lemma_trim_end(s.drop_last(), i);
        assert(s.drop_last().subrange(0, i) =~= s.subrange(0, i));
    } else {
        assert(s.subrange(0, i) =~= s);
    }
}

proof fn lemma_trim_bounds(s: Seq<char>)
    ensures
        0 <= trim_start_index(s) <= s.len(),
        0 <= trim_end_index(s) <= s.len(),
        trim_start_index(s) < s.len() ==> !is_white_space(s[trim_start_index(s)]),
        trim_end_index(s) > 0 ==> !is_white_space(s[trim_end_index(s) - 1]),
    decreases s.len(),
{
    if s.len() > 0 {
        lemma_trim_bounds(s.drop_first());
        lemma_trim_bounds(s.drop_last());
    }
}

proof fn lemma_trim_start_at_most(s: Seq<char>, k: int)
    requires
        0 <= k < s.len(),
        !is_white_space(s[k]),
    ensures
        trim_start_index(s) <= k,
    decreases s.len(),
{
    if is_white_space(s[0]) {
        lemma_trim_start_at_most(s.drop_first(), k - 1);
    }
}

proof fn lemma_trim_end_past(s: Seq<char>, k: int)
    requires
        0 <= k < s.len(),
        !is_white_space(s[k]),
    ensures
        trim_end_index(s) > k,
    decreases s.len(),
{
    if is_white_space(s.last()) {
        lemma_trim_end_past(s.drop_last(), k);
    }
}

/// Text with a character that is not white space is not blank.
pub(crate) proof fn lemma_trim_nonblank(s: Seq<char>, k: int)
    requires
        0 <= k < s.len(),
        !is_white_space(s[k]),
    ensures
        trim_spec(s).len() > 0,
{
    lemma_trim_start_at_most(s, k);
    lemma_trim_end_past(s, k);
    lemma_trim_bounds(s);
}

/// The positions of the first and last characters that are not white space.
fn trim_bounds(chars: &Vec<char>) -> (r: (usize, usize))
    ensures
        r.0 == trim_start_index(chars@),
        r.1 == trim_end_index(chars@),
{
    let n = chars.len();
    let mut a: usize = 0;
    while a < n && white_space(chars[a])
        invariant
            a <= n,
            n == chars@.len(),
            forall|j: int| 0 <= j < a ==> is_white_space(#[trigger] chars@[j]),
        decreases n - a,
    {
        a = a + 1;
    }
    proof {
        lemma_trim_start(chars@, a as int);
        lemma_trim_bounds(chars@.subrange(a as int, n as int));
        if a < n {
            assert(chars@.subrange(a as int, n as int)[0] == chars@[a as int]);
        }
    }
    let mut b: usize = n;
    while b > 0 && white_space(chars[b - 1])
        invariant
            b <= n,
            n == chars@.len(),
            forall|j: int| b <= j < n ==> is_white_space(#[trigger] chars@[j]),
        decreases b,
    {
        b = b - 1;
    }
    proof {
        lemma_trim_end(chars@, b as int);
        let pre = chars@.subrange(0, b as int);
        if b > 0 {
            assert(pre.last() == chars@[b - 1]);
        } else {
            assert(pre.len() == 0);
        }
    }
    (a, b)
}

/// `s` without leading and trailing white space.
pub fn trim_text(s: &str) -> (r: String)
    ensures
        r@ == trim_spec(s@),
{
    let chars = chars_of(s);
    let (a, b) = trim_bounds(&chars);
    proof {
        lemma_trim_bounds(s@);
    }
    if a >= b {
        String::new()
    } else {
        String::from_str(s.substring_char(a, b))
    }
}

/// Whether `s` is empty once trimmed.
pub fn is_blank(s: &str) -> (b: bool)
    ensures
        b == (trim_spec(s@).len() == 0),
{
    let chars = chars_of(s);
    let (a, b) = trim_bounds(&chars);
    proof {
        lemma_trim_bounds(s@);
    }
    a >= b
}

/// An ASCII decimal digit.
pub open spec fn is_digit(c: char) -> bool {
    '0' <= c && c <= '9'
}

pub open spec fn digit_value(c: char) -> int {
    (c as int) - ('0' as int)
}

pub open spec fn all_digits(s: Seq<char>) -> bool {
    forall|i: int| 0 <= i < s.len() ==> is_digit(#[trigger] s[i])
}

/// The number that a string of decimal digits denotes.
pub open spec fn digits_value(s: Seq<char>) -> int
    decreases s.len(),
{
    if s.len() == 0 {
        0
    } else {
        digits_value(s.drop_last()) * 10 + digit_value(s.last())
    }
}

/// What `str::parse` gives for an unsigned integer type whose largest value
/// is `max`: an optional `+`, then at least one decimal digit, and a value
/// that fits.
pub open spec fn parse_unsigned(s: Seq<char>, max: int) -> Option<int> {
    let ds = if s.len() > 0 && s[0] == '+' { s.drop_first() } else { s };
    if ds.len() > 0 && all_digits(ds) && digits_value(ds) <= max {
        Some(digits_value(ds))
    } else {
        None
    }
}

proof fn lemma_digits_prefix(s: Seq<char>, i: int)
    requires
        0 <= i < s.len(),
    ensures
        digits_value(s.take(i + 1)) == digits_value(s.take(i)) * 10 + digit_value(s[i]),
{
    assert(s.take(i + 1).drop_last() =~= s.take(i));
}

proof fn lemma_digits_grow(s: Seq<char>, i: int)
    requires
        0 <= i <= s.len(),
        all_digits(s),
    ensures
        0 <= digits_value(s.take(i)) <= digits_value(s),
    decreases s.len() - i,
{
    if i < s.len() {
        lemma_digits_prefix(s, i);
        assert(is_digit(s[i]));
        lemma_digits_nonneg(s.take(i));
        lemma_digits_grow(s, i + 1);
    } else {
        assert(s.take(i) =~= s);
        lemma_digits_nonneg(s);
    }
}

proof fn lemma_digits_nonneg(s: Seq<char>)
    requires
        all_digits(s),
    ensures
        digits_value(s) >= 0,
    decreases s.len(),
{
    if s.len() > 0 {
        assert(is_digit(s.last()));
        lemma_digits_nonneg(s.drop_last());
    }
}

/// The value of the decimal digits `v[from..to]`, when they are all digits,
/// there is at least one, and the value is at most `max`.
pub fn digits_in(v: &Vec<char>, from: usize, to: usize, max: u64) -> (r: Option<u64>)
    requires
        from <= to <= v@.len(),
    ensures
        ({
            let ds = v@.subrange(from as int, to as int);
            match r {
                Some(x) => ds.len() > 0 && all_digits(ds) && digits_value(ds) <= max && x == digits_value(ds),
                None => !(ds.len() > 0 && all_digits(ds) && digits_value(ds) <= max),
            }
        }),
{
    let ghost ds = v@.subrange(from as int, to as int);
    if from == to {
        return None;
    }
    let mut acc: u128 = 0;
    let mut i: usize = from;
    while i < to
        invariant
            from <= i <= to <= v@.len(),
            ds == v@.subrange(from as int, to as int),
            all_digits(ds.take(i - from)),
            acc == digits_value(ds.take(i - from)),
            acc <= max,
        decreases to - i,
    {
        let c = v[i];
        assert(c == ds[i - from]);
        if !('0' <= c && c <= '9') {
            assert(!is_digit(ds[i - from]));
            return None;
        }
        let d = (c as u32 - '0' as u32) as u128;
        proof {
            lemma_digits_prefix(ds, i - from);
            assert(ds.take(i - from + 1) =~= ds.take(i - from).push(c));
        }
        acc = acc * 10 + d;
        if acc > max as u128 {
            proof {
                if all_digits(ds) {
                    lemma_digits_grow(ds, i - from + 1);
                }
            }
            return None;
        }
        i = i + 1;
    }
    assert(ds.take(ds.len() as int) =~= ds);
    Some(acc as u64)
}

/// `str::parse` of an unsigned integer type whose largest value is `max`.
pub fn parse_unsigned_chars(v: &Vec<char>, max: u64) -> (r: Option<u64>)
    ensures
        match r {
            Some(x) => parse_unsigned(v@, max as int) == Some(x as int),
            None => parse_unsigned(v@, max as int) is None,
        },
{
    let from: usize = if v.len() > 0 && v[0] == '+' { 1 } else { 0 };
    let ghost ds = if v@.len() > 0 && v@[0] == '+' { v@.drop_first() } else { v@ };
    assert(v@.subrange(from as int, v@.len() as int) =~= ds);
    digits_in(v, from, v.len(), max)
}

/// The pieces of `s` between the characters `a` and `b`, as `str::split`
/// with the pattern `[a, b]` yields them (always at least one piece).
pub open spec fn split_spec(s: Seq<char>, a: char, b: char) -> Seq<Seq<char>>
    decreases s.len(),
{
    if s.len() == 0 {
        seq![Seq::empty()]
    } else {
        let prev = split_spec(s.drop_last(), a, b);
        let c = s.last();
        if c == a || c == b {
            prev.push(Seq::empty())
        } else {
            prev.update(prev.len() - 1, prev.last().push(c))
        }
    }
}

pub(crate) proof fn lemma_split_nonempty(s: Seq<char>, a: char, b: char)
    ensures
        split_spec(s, a, b).len() >= 1,
    decreases s.len(),
{
    if s.len() > 0 {
        lemma_split_nonempty(s.drop_last(), a, b);
    }
}

/// Appending text free of both separators extends the last piece.
pub(crate) proof fn lemma_split_append(s: Seq<char>, t: Seq<char>, a: char, b: char)
    requires
        forall|i: int| 0 <= i < t.len() ==> #[trigger] t[i] != a && t[i] != b,
    ensures
        split_spec(s + t, a, b) == split_spec(s, a, b).update(
            split_spec(s, a, b).len() - 1,
            split_spec(s, a, b).last() + t,
        ),
    decreases t.len(),
{
    lemma_split_nonempty(s, a, b);
    let parts = split_spec(s, a, b);
    if t.len() == 0 {
        assert(s + t =~= s);
        assert(parts.last() + t =~= parts.last());
        assert(parts.update(parts.len() - 1, parts.last()) =~= parts);
    } else {
        let u = t.drop_last();
        lemma_split_append(s, u, a, b);
        assert((s + t).drop_last() =~= s + u);
        assert((s + t).last() == t[t.len() - 1]);
        let prev = split_spec(s + u, a, b);
        assert(prev.last() == parts.last() + u);
        assert((parts.last() + u).push(t.last()) =~= parts.last() + t);
        assert(prev.update(prev.len() - 1, prev.last().push(t.last())) =~= parts.update(
            parts.len() - 1,
            parts.last() + t,
        ));
    }
}

/// Two pieces free of both separators, joined by one of them, split back
/// into those two pieces.
pub(crate) proof fn lemma_split_pair(x: Seq<char>, sep: char, y: Seq<char>, a: char, b: char)
    requires
        sep == a || sep == b,
        forall|i: int| 0 <= i < x.len() ==> #[trigger] x[i] != a && x[i] != b,
        forall|i: int| 0 <= i < y.len() ==> #[trigger] y[i] != a && y[i] != b,
    ensures
        split_spec(x + seq![sep] + y, a, b) == seq![x, y],
{
    let e = Seq::<char>::empty();
    assert(split_spec(e, a, b) == seq![e]);
    lemma_split_append(e, x, a, b);
    assert(e + x =~= x);
    assert(split_spec(x, a, b) =~= seq![x]);
    let xs = x + seq![sep];
    assert(xs.drop_last() =~= x);
    assert(xs.last() == sep);
    assert(split_spec(xs, a, b) =~= seq![x, e]);
    lemma_split_append(xs, y, a, b);
    assert(split_spec(xs + y, a, b) =~= seq![x, y]);
}

/// Digits hold neither of two separators that are not digits.
pub(crate) proof fn lemma_digits_free_of(s: Seq<char>, a: char, b: char)
    requires
        all_digits(s),
        !is_digit(a),
        !is_digit(b),
    ensures
        forall|i: int| 0 <= i < s.len() ==> #[trigger] s[i] != a && s[i] != b,
{
    assert forall|i: int| 0 <= i < s.len() implies #[trigger] s[i] != a && s[i] != b by {
        assert(is_digit(s[i]));
    }
}

/// Text that starts and ends with a character that is not white space is
/// its own trimmed form.
pub(crate) proof fn lemma_trim_unchanged(s: Seq<char>)
    requires
        s.len() > 0,
        !is_white_space(s[0]),
        !is_white_space(s.last()),
    ensures
        trim_spec(s) == s,
{
    assert(s.subrange(0, s.len() as int) =~= s);
}

/// Splits `s` at every `a` and every `b`.
pub fn split_on(s: &str, a: char, b: char) -> (parts: Vec<Vec<char>>)
    ensures
        parts@.map_values(|p: Vec<char>| p@) == split_spec(s@, a, b),
{
    let chars = chars_of(s);
    split_chars(&chars, a, b)
}

/// Splits the characters `chars` at every `a` and every `b`.
pub fn split_chars(chars: &Vec<char>, a: char, b: char) -> (parts: Vec<Vec<char>>)
    ensures
        parts@.map_values(|p: Vec<char>| p@) == split_spec(chars@, a, b),
{
    let mut parts: Vec<Vec<char>> = Vec::new();
    parts.push(Vec::new());
    let mut i: usize = 0;
    proof {
        assert(chars@.take(0) =~= Seq::<char>::empty());
        assert(parts@.map_values(|p: Vec<char>| p@) =~= split_spec(Seq::<char>::empty(), a, b));
    }
    while i < chars.len()
        invariant
            i <= chars@.len(),
            parts@.len() >= 1,
            parts@.map_values(|p: Vec<char>| p@) == split_spec(chars@.take(i as int), a, b),
        decreases chars@.len() - i,
    {
        let c = chars[i];
        let ghost prev = parts@.map_values(|p: Vec<char>| p@);
        proof {
            assert(chars@.take(i + 1).drop_last() =~= chars@.take(i as int));
            assert(chars@.take(i + 1).last() == c);
        }
        if c == a || c == b {
            parts.push(Vec::new());
            assert(parts@.map_values(|p: Vec<char>| p@) =~= prev.push(Seq::empty()));
        } else {
            let last = parts.len() - 1;
            let mut piece = parts.pop().unwrap();
            piece.push(c);
            parts.push(piece);
            assert(parts@.map_values(|p: Vec<char>| p@) =~= prev.update(last as int, prev.last().push(c)));
        }
        i = i + 1;
    }
    assert(chars@.take(chars@.len() as int) =~= chars@);
    parts
}

/// Lexicographic order on characters, as `str` and `String` compare.
pub open spec fn lex_less(a: Seq<char>, b: Seq<char>) -> bool
    decreases a.len(),
{
    if a.len() == 0 {
        b.len() > 0
    } else if b.len() == 0 {
        false
    } else if a[0] != b[0] {
        a[0] < b[0]
    } else {
        lex_less(a.drop_first(), b.drop_first())
    }
}

pub proof fn lemma_lex_irreflexive(a: Seq<char>)
    ensures
        !lex_less(a, a),
    decreases a.len(),
{
    if a.len() > 0 {
        lemma_lex_irreflexive(a.drop_first());
    }
}

pub proof fn lemma_lex_transitive(a: Seq<char>, b: Seq<char>, c: Seq<char>)
    requires
        lex_less(a, b),
        lex_less(b, c),
    ensures
        lex_less(a, c),
    decreases a.len(),
{
    if a.len() > 0 && b.len() > 0 && c.len() > 0 && a[0] == b[0] && b[0] == c[0] {
        lemma_lex_transitive(a.drop_first(), b.drop_first(), c.drop_first());
    }
}

pub proof fn lemma_lex_total(a: Seq<char>, b: Seq<char>)
    ensures
        a == b || lex_less(a, b) || lex_less(b, a),
        !(lex_less(a, b) && lex_less(b, a)),
    decreases a.len(),
{
    if a.len() > 0 && b.len() > 0 && a[0] == b[0] {
        lemma_lex_total(a.drop_first(), b.drop_first());
        if a.drop_first() == b.drop_first() {
            assert(a =~= seq![a[0]] + a.drop_first());
            assert(b =~= seq![b[0]] + b.drop_first());
        }
    } else if a.len() == 0 && b.len() == 0 {
        assert(a =~= b);
    }
}

/// Whether `a` comes before `b` in lexicographic order.
pub fn chars_less(a: &Vec<char>, b: &Vec<char>) -> (r: bool)
    ensures
        r == lex_less(a@, b@),
{
    let mut i: usize = 0;
    assert(a@.skip(0) =~= a@ && b@.skip(0) =~= b@);
    while i < a.len() && i < b.len()
        invariant
            i <= a@.len(),
            i <= b@.len(),
            a@.take(i as int) == b@.take(i as int),
            lex_less(a@, b@) == lex_less(a@.skip(i as int), b@.skip(i as int)),
        decreases a@.len() - i,
    {
        if a[i] != b[i] {
            assert(a@.skip(i as int)[0] == a@[i as int]);
            assert(b@.skip(i as int)[0] == b@[i as int]);
            return a[i] < b[i];
        }
        proof {
            assert(a@.skip(i as int).drop_first() =~= a@.skip(i + 1));
            assert(b@.skip(i as int).drop_first() =~= b@.skip(i + 1));
            assert(a@.take(i + 1) =~= a@.take(i as int).push(a@[i as int]));
            assert(b@.take(i + 1) =~= b@.take(i as int).push(b@[i as int]));
        }
        i = i + 1;
    }
    i < b.len() && i == a.len()
}

/// Whether two character strings are equal.
pub fn chars_equal(a: &Vec<char>, b: &Vec<char>) -> (r: bool)
    ensures
        r == (a@ == b@),
{
    if a.len() != b.len() {
        return false;
    }
    let mut i: usize = 0;
    while i < a.len()
        invariant
            i <= a@.len(),
            a@.len() == b@.len(),
            forall|j: int| 0 <= j < i ==> a@[j] == b@[j],
        decreases a@.len() - i,
    {
        if a[i] != b[i] {
            return false;
        }
        i = i + 1;
    }
    assert(a@ =~= b@);
    true
}

/// The decimal digit character for `d` (below ten).
pub open spec fn digit_char(d: int) -> char {
    if d == 0 { '0' } else if d == 1 { '1' } else if d == 2 { '2' } else if d == 3 { '3' } else if d == 4 {
        '4'
    } else if d == 5 { '5' } else if d == 6 { '6' } else if d == 7 { '7' } else if d == 8 { '8' } else { '9' }
}

/// The decimal notation of `n`, without leading zeros.
pub open spec fn decimal_spec(n: nat) -> Seq<char>
    decreases n,
{
    if n < 10 {
        seq![digit_char(n as int)]
    } else {
        decimal_spec(n / 10) + seq![digit_char((n % 10) as int)]
    }
}

fn digit_str(d: u64) -> (s: &'static str)
    requires
        d < 10,
    ensures
        s@ == seq![digit_char(d as int)],
{
    proof {
        reveal_strlit("0");
        reveal_strlit("1");
        reveal_strlit("2");
        reveal_strlit("3");
        reveal_strlit("4");
        reveal_strlit("5");
        reveal_strlit("6");
        reveal_strlit("7");
        reveal_strlit("8");
        reveal_strlit("9");
    }
    if d == 0 { "0" } else if d == 1 { "1" } else if d == 2 { "2" } else if d == 3 { "3" } else if d == 4 {
        "4"
    } else if d == 5 { "5" } else if d == 6 { "6" } else if d == 7 { "7" } else if d == 8 { "8" } else { "9" }
}

proof fn lemma_digit_char_value(d: int)
    requires
        0 <= d < 10,
    ensures
        is_digit(digit_char(d)),
        digit_value(digit_char(d)) == d,
{
}

/// Reading back a decimal notation: it is a nonempty run of digits, without
/// white space at either end, that denotes `n`.
pub proof fn lemma_decimal_reads_back(n: nat)
    ensures
        decimal_spec(n).len() > 0,
        all_digits(decimal_spec(n)),
        digits_value(decimal_spec(n)) == n,
        !is_white_space(decimal_spec(n)[0]),
        !is_white_space(decimal_spec(n).last()),
        decimal_spec(n)[0] != '+',
    decreases n,
{
    let s = decimal_spec(n);
    if n < 10 {
        lemma_digit_char_value(n as int);
        assert(s.drop_last() =~= Seq::<char>::empty());
        assert(s.last() == digit_char(n as int));
        assert(digits_value(s) == digits_value(s.drop_last()) * 10 + digit_value(s.last()));
        assert(digits_value(Seq::<char>::empty()) == 0);
    } else {
        lemma_digit_char_value((n % 10) as int);
        assert(n == (n / 10) * 10 + n % 10);
        lemma_decimal_reads_back(n / 10);
        let head = decimal_spec(n / 10);
        let d = digit_char((n % 10) as int);
        assert(s.drop_last() =~= head);
        assert(s.last() == d);
        assert(digits_value(s) == digits_value(head) * 10 + digit_value(d));
        assert(s[0] == head[0]);
        assert forall|i: int| 0 <= i < s.len() implies is_digit(#[trigger] s[i]) by {
            if i < head.len() {
                assert(s[i] == head[i]);
            }
        }
    }
}

/// The decimal notation of `n`, as `n.to_string()` writes it.
pub fn decimal(n: u64) -> (s: String)
    ensures
        s@ == decimal_spec(n as nat),
    decreases n,
{
    if n < 10 {
        String::from_str(digit_str(n))
    } else {
        let head = decimal(n / 10);
        head.concat(digit_str(n % 10))
    }
}

} // verus!
