//! Character-level helpers over the Unicode scalar values of a string.

use vstd::prelude::*;
use vstd::string::*;
use vstd::utf8::is_ascii_chars;

verus! {

/// The characters of `s`, in order.
pub fn chars_of(s: &str) -> (v: Vec<char>)
    ensures
        v@ == s@,
{
    let mut v: Vec<char> = Vec::new();
    for c in it: s.chars()
        invariant
            v@ == it.seq().take(it.index() as int),
    {
        v.push(c);
    }
    assert(v@ =~= s@);
    v
}

/// Whether `c` has the Unicode `White_Space` property, the test that
/// `char::is_whitespace` and `str::trim` use: tab, line feed, vertical tab,
/// form feed, carriage return, space, next line, no-break space, ogham space
/// mark, the spaces from en quad to hair space, line separator, paragraph
/// separator, narrow no-break space, medium mathematical space and
/// ideographic space.
pub open spec fn is_white_space(c: char) -> bool {
    ||| '\u{0009}' <= c <= '\u{000D}'
    ||| c == '\u{0020}'
    ||| c == '\u{0085}'
    ||| c == '\u{00A0}'
    ||| c == '\u{1680}'
    ||| '\u{2000}' <= c <= '\u{200A}'
    ||| c == '\u{2028}'
    ||| c == '\u{2029}'
    ||| c == '\u{202F}'
    ||| c == '\u{205F}'
    ||| c == '\u{3000}'
}

/// Whether `c` is white space in the sense of `char::is_whitespace`.
pub fn is_white_space_char(c: char) -> (r: bool)
    ensures
        r == is_white_space(c),
{
    ('\u{0009}' <= c && c <= '\u{000D}') || c == '\u{0020}' || c == '\u{0085}' || c == '\u{00A0}'
        || c == '\u{1680}' || ('\u{2000}' <= c && c <= '\u{200A}') || c == '\u{2028}'
        || c == '\u{2029}' || c == '\u{202F}' || c == '\u{205F}' || c == '\u{3000}'
}

/// `s` without its leading white space.
pub open spec fn trim_start(s: Seq<char>) -> Seq<char>
    decreases s.len(),
{
    if s.len() > 0 && is_white_space(s[0]) {
        trim_start(s.drop_first())
    } else {
        s
    }
}

/// `s` without its trailing white space.
pub open spec fn trim_end(s: Seq<char>) -> Seq<char>
    decreases s.len(),
{
    if s.len() > 0 && is_white_space(s.last()) {
        trim_end(s.drop_last())
    } else {
        s
    }
}

/// `s` without leading and trailing white space, as `str::trim` gives it.
pub open spec fn trim(s: Seq<char>) -> Seq<char> {
    trim_end(trim_start(s))
}

/// The bounds `(a, b)` of the trimmed part of `v[lo..hi]`.
pub fn trim_bounds(v: &Vec<char>, lo: usize, hi: usize) -> (r: (usize, usize))
    requires
        lo <= hi <= v@.len(),
    ensures
        lo <= r.0 <= r.1 <= hi,
        v@.subrange(r.0 as int, r.1 as int) == trim(v@.subrange(lo as int, hi as int)),
{
    let ghost whole = v@.subrange(lo as int, hi as int);
    let mut a = lo;
    while a < hi && is_white_space_char(v[a])
        invariant
            lo <= a <= hi <= v@.len(),
            whole == v@.subrange(lo as int, hi as int),
            trim_start(whole) == trim_start(v@.subrange(a as int, hi as int)),
        decreases hi - a,
    {
        assert(v@.subrange(a as int, hi as int).drop_first() =~= v@.subrange(a + 1, hi as int));
        a = a + 1;
    }
    assert(trim_start(whole) == v@.subrange(a as int, hi as int));
    let mut b = hi;
    while b > a && is_white_space_char(v[b - 1])
        invariant
            lo <= a <= b <= hi <= v@.len(),
            trim_start(whole) == v@.subrange(a as int, hi as int),
            trim(whole) == trim_end(v@.subrange(a as int, b as int)),
        decreases b - a,
    {
        assert(v@.subrange(a as int, b as int).drop_last() =~= v@.subrange(a as int, b - 1));
        b = b - 1;
    }
    (a, b)
}

/// Whether two strings hold the same characters.
pub fn text_eq(a: &str, b: &str) -> (r: bool)
    ensures
        r == (a@ == b@),
{
    let x = chars_of(a);
    let y = chars_of(b);
    if x.len() != y.len() {
        return false;
    }
    let mut i: usize = 0;
    while i < x.len()
        invariant
            x@ == a@,
            y@ == b@,
            x@.len() == y@.len(),
            i <= x@.len(),
            forall|j: int| 0 <= j < i ==> x@[j] == y@[j],
        decreases x@.len() - i,
    {
        if x[i] != y[i] {
            return false;
        }
        i = i + 1;
    }
    assert(x@ =~= y@);
    true
}

/// The lowercase form of a string, as `str::to_lowercase` computes it from the
/// Unicode `Lowercase` mapping.
pub uninterp spec fn lowercase_of(s: Seq<char>) -> Seq<char>;

/// The ASCII lowercase of a character: `A` to `Z` become `a` to `z`, every
/// other character stays as it is.
pub open spec fn ascii_lower(c: char) -> char {
    if 'A' <= c <= 'Z' {
        ((c as int) + 32) as char
    } else {
        c
    }
}

/// Each character of `s` in ASCII lowercase.
pub open spec fn ascii_lowercase(s: Seq<char>) -> Seq<char> {
    s.map_values(|c: char| ascii_lower(c))
}

/// The lowercase of `s`, as `str::to_lowercase` gives it: for ASCII text the
/// ASCII lowercase, otherwise `lowercase_of`.
pub open spec fn lowercase(s: Seq<char>) -> Seq<char> {
    if is_ascii_chars(s) {
        ascii_lowercase(s)
    } else {
        lowercase_of(s)
    }
}

/// Calls `str::to_lowercase`. The claim is that the result is `lowercase_of`
/// of the argument, a function of its characters alone, and that on ASCII
/// text it maps `A` to `Z` to `a` to `z` and keeps every other character, as
/// the Unicode lowercase mapping does for ASCII.
#[verifier::external_body]
pub(crate) fn to_lowercase(s: &str) -> (r: String)
    ensures
        r@ == lowercase_of(s@),
        is_ascii_chars(s@) ==> r@ == ascii_lowercase(s@),
{
    s.to_lowercase()
}

/// An ASCII decimal digit.
pub open spec fn is_digit(c: char) -> bool {
    '0' <= c <= '9'
}

/// Every character of `s` is a decimal digit.
pub open spec fn all_digits(s: Seq<char>) -> bool {
    forall|i: int| 0 <= i < s.len() ==> is_digit(#[trigger] s[i])
}

/// The value of a decimal digit.
pub open spec fn digit_value(c: char) -> nat {
    (c as int - '0' as int) as nat
}

/// The number that a string of decimal digits denotes.
pub open spec fn decimal_value(s: Seq<char>) -> nat
    decreases s.len(),
{
    if s.len() == 0 {
        0
    } else {
        decimal_value(s.drop_last()) * 10 + digit_value(s.last())
    }
}

/// `s` without a leading `+`.
pub open spec fn without_plus(s: Seq<char>) -> Seq<char> {
    if s.len() > 0 && s[0] == '+' {
        s.drop_first()
    } else {
        s
    }
}

/// What `str::parse::<u64>` gives: a value for an optional `+` followed by at
/// least one decimal digit, whose number fits in a `u64`; nothing otherwise.
pub open spec fn parsed_u64(s: Seq<char>) -> Option<u64> {
    let d = without_plus(s);
    if d.len() > 0 && all_digits(d) && decimal_value(d) <= u64::MAX {
        Some(decimal_value(d) as u64)
    } else {
        None
    }
}

/// A string of digits denotes at least what any of its prefixes denotes.
proof fn lemma_decimal_value_prefix(s: Seq<char>, k: int)
    requires
        0 <= k <= s.len(),
        all_digits(s),
    ensures
        decimal_value(s.take(k)) <= decimal_value(s),
    decreases s.len(),
{
    if k < s.len() {
        assert(all_digits(s.drop_last()));
        assert(s.drop_last().take(k) =~= s.take(k));
        lemma_decimal_value_prefix(s.drop_last(), k);
    } else {
        assert(s.take(k) =~= s);
    }
}

/// How decimal numbers read: a single digit reads as its value; a digit
/// appended to a number that reads as `n` reads as `10 * n` plus the digit,
/// while that fits in a `u64`; a leading `+` changes nothing and a leading
/// `-` is refused; a number that does not fit is refused.
pub proof fn lemma_parsed_u64_reads_decimals(s: Seq<char>, c: char)
    requires
        is_digit(c),
    ensures
        parsed_u64(seq![c]) == Some(digit_value(c) as u64),
        parsed_u64(s) matches Some(n) ==> (s[s.len() - 1] != '+' && n * 10 + digit_value(c)
            <= u64::MAX ==> parsed_u64(s.push(c)) == Some((n * 10 + digit_value(c)) as u64)),
        parsed_u64(s) matches Some(n) ==> (s[s.len() - 1] != '+' && n * 10 + digit_value(c)
            > u64::MAX ==> parsed_u64(s.push(c)) is None),
        parsed_u64(seq!['+'] + s) == (if s.len() > 0 && s[0] == '+' {
            None
        } else {
            parsed_u64(s)
        }),
        s.len() > 0 && s[0] == '-' ==> parsed_u64(s) is None,
{
    let one = seq![c];
    assert(one.drop_last() =~= Seq::<char>::empty());
    assert(without_plus(one) == one);
    assert(decimal_value(Seq::<char>::empty()) == 0);
    assert(decimal_value(one) == digit_value(c));
    assert(all_digits(one));
    if let Some(n) = parsed_u64(s) {
        if s[s.len() - 1] != '+' {
            let d = without_plus(s);
            let t = s.push(c);
            assert(without_plus(t) =~= d.push(c));
            assert(d.push(c).drop_last() =~= d);
            assert(all_digits(d.push(c)));
        }
    }
    let p = seq!['+'] + s;
    assert(p.drop_first() =~= s);
    assert(without_plus(p) == s);
    if s.len() > 0 && s[0] == '+' {
        assert(!is_digit(s[0]));
    }
    if s.len() > 0 && s[0] == '-' {
        assert(without_plus(s) == s);
        assert(!is_digit(s[0]));
    }
}

/// Parses an unsigned decimal number the way `str::parse::<u64>` does.
pub fn parse_u64(s: &str) -> (r: Option<u64>)
    ensures
        r == parsed_u64(s@),
{
    let v = chars_of(s);
    let n = v.len();
    let start: usize = if n > 0 && v[0] == '+' { 1 } else { 0 };
    let ghost d = without_plus(s@);
    assert(d =~= v@.subrange(start as int, n as int));
    if start == n {
        return None;
    }
    let mut acc: u64 = 0;
    let mut i: usize = start;
    assert(d.take(0) =~= Seq::<char>::empty());
    while i < n
        invariant
            v@ == s@,
            n == v@.len(),
            start <= i <= n,
            d == v@.subrange(start as int, n as int),
            d == without_plus(s@),
            all_digits(d.take(i - start)),
            acc as nat == decimal_value(d.take(i - start)),
        decreases n - i,
    {
        let c = v[i];
        if !('0' <= c && c <= '9') {
            assert(d[i - start] == c);
            assert(!is_digit(d[i - start]));
            return None;
        }
        let digit = (c as u32 - '0' as u32) as u64;
        let ghost next = d.take(i - start + 1);
        assert(next.drop_last() =~= d.take(i - start));
        assert(next.last() == c);
        assert(all_digits(next));
        assert(digit == digit_value(c));
        assert(decimal_value(next) == acc * 10 + digit);
        match acc.checked_mul(10) {
            Some(m) => match m.checked_add(digit) {
                Some(t) => {
                    acc = t;
                },
                None => {
                    proof {
                        if all_digits(d) {
                            lemma_decimal_value_prefix(d, i - start + 1);
                        }
                    }
                    return None;
                },
            },
            None => {
                proof {
                    if all_digits(d) {
                        lemma_decimal_value_prefix(d, i - start + 1);
                    }
                }
                return None;
            },
        }
        i = i + 1;
    }
    assert(d.take(n - start) =~= d);
    Some(acc)
}

/// A sign character.
pub open spec fn is_sign(c: char) -> bool {
    c == '+' || c == '-'
}

/// `s` without one leading sign.
pub open spec fn without_sign(s: Seq<char>) -> Seq<char> {
    if s.len() > 0 && is_sign(s[0]) {
        s.drop_first()
    } else {
        s
    }
}

/// `s` spells a word whose letters are given in `lower` and `upper` case, each
/// letter of `s` in either case.
pub open spec fn spells_either_case(s: Seq<char>, lower: Seq<char>, upper: Seq<char>) -> bool {
    &&& s.len() == lower.len()
    &&& s.len() == upper.len()
    &&& forall|i: int| 0 <= i < s.len() ==> #[trigger] s[i] == lower[i] || s[i] == upper[i]
}

/// The exponent marker of a decimal float.
pub open spec fn is_exponent_marker(c: char) -> bool {
    c == 'e' || c == 'E'
}

/// Digits with at most one `.` among them and at least one digit: the forms
/// `Digit+`, `Digit+ '.' Digit*` and `Digit* '.' Digit+`.
pub open spec fn is_mantissa(m: Seq<char>) -> bool {
    &&& forall|i: int| 0 <= i < m.len() ==> is_digit(#[trigger] m[i]) || m[i] == '.'
    &&& forall|i: int, j: int|
        0 <= i < m.len() && 0 <= j < m.len() && #[trigger] m[i] == '.' && #[trigger] m[j] == '.'
            ==> i == j
    &&& exists|i: int| 0 <= i < m.len() && is_digit(#[trigger] m[i])
}

/// What follows the exponent marker: an optional sign and at least one digit.
pub open spec fn is_exponent(x: Seq<char>) -> bool {
    let d = without_sign(x);
    d.len() > 0 && all_digits(d)
}

/// A mantissa, optionally followed by an exponent marker and an exponent.
pub open spec fn is_decimal_number(t: Seq<char>) -> bool {
    ||| is_mantissa(t)
    ||| exists|k: int|
        0 <= k < t.len() && is_exponent_marker(#[trigger] t[k]) && is_mantissa(t.take(k))
            && is_exponent(t.skip(k + 1))
}

/// The strings that `str::parse::<f64>` accepts, by the grammar that std
/// documents for it: an optional sign, then `inf`, `infinity` or `nan` in any
/// letter case, or a decimal number.
pub open spec fn is_float_literal(s: Seq<char>) -> bool {
    let t = without_sign(s);
    ||| spells_either_case(t, seq!['i', 'n', 'f'], seq!['I', 'N', 'F'])
    ||| spells_either_case(
        t,
        seq!['i', 'n', 'f', 'i', 'n', 'i', 't', 'y'],
        seq!['I', 'N', 'F', 'I', 'N', 'I', 'T', 'Y'],
    )
    ||| spells_either_case(t, seq!['n', 'a', 'n'], seq!['N', 'A', 'N'])
    ||| is_decimal_number(t)
}

/// A character that can stand in a float that `str::parse::<f64>` reads: a
/// digit, `.`, a sign, an exponent marker, or a letter of `inf`, `infinity`
/// or `nan` in either case.
pub open spec fn is_float_char(c: char) -> bool {
    ||| is_digit(c)
    ||| c == '.'
    ||| is_sign(c)
    ||| is_exponent_marker(c)
    ||| c == 'i' || c == 'n' || c == 'f' || c == 't' || c == 'y' || c == 'a'
    ||| c == 'I' || c == 'N' || c == 'F' || c == 'T' || c == 'Y' || c == 'A'
}

/// Decimal forms that `str::parse::<f64>` reads: digits, digits with a
/// fraction, and either with an exponent.
pub proof fn lemma_decimal_forms_are_float_literals(a: Seq<char>, b: Seq<char>, e: Seq<char>)
    requires
        a.len() > 0,
        all_digits(a),
        all_digits(b),
        e.len() > 0,
        all_digits(e),
    ensures
        is_float_literal(a),
        is_float_literal(a + seq!['.'] + b),
        is_float_literal(a + seq!['e'] + e),
        is_float_literal(a + seq!['.'] + b + seq!['E', '-'] + e),
{
    assert(!is_sign(a[0]));
    assert(is_digit(a[0]));
    assert(is_mantissa(a));
    let m = a + seq!['.'] + b;
    assert(!is_sign(m[0]));
    assert(m[0] == a[0]);
    assert forall|i: int, j: int|
        0 <= i < m.len() && 0 <= j < m.len() && #[trigger] m[i] == '.' && #[trigger] m[j] == '.'
        implies i == j by {
        if i < a.len() {
            assert(is_digit(a[i]));
        } else if i > a.len() {
            assert(is_digit(b[i - a.len() - 1]));
        }
        if j < a.len() {
            assert(is_digit(a[j]));
        } else if j > a.len() {
            assert(is_digit(b[j - a.len() - 1]));
        }
    }
    assert(is_mantissa(m));
    let x = a + seq!['e'] + e;
    assert(x[0] == a[0]);
    assert(x.take(a.len() as int) =~= a);
    assert(x.skip(a.len() as int + 1) =~= e);
    assert(without_sign(e) == e) by {
        assert(is_digit(e[0]));
    }
    assert(is_exponent_marker(x[a.len() as int]));
    assert(is_decimal_number(x));
    let y = m + seq!['E', '-'] + e;
    assert(y[0] == a[0]);
    assert(y.take(m.len() as int) =~= m);
    assert(y.skip(m.len() as int + 1) =~= seq!['-'] + e);
    assert((seq!['-'] + e).drop_first() =~= e);
    assert(is_exponent_marker(y[m.len() as int]));
    assert(is_decimal_number(y));
}

/// A float that `str::parse::<f64>` reads holds only float characters, with
/// at most one sign before anything else and at least one digit or a word
/// `inf`, `infinity` or `nan`; in particular no `,`, no white space and
/// nothing empty.
pub proof fn lemma_float_literal_characters(s: Seq<char>)
    requires
        is_float_literal(s),
    ensures
        s.len() > 0,
        forall|i: int| 0 <= i < s.len() ==> is_float_char(#[trigger] s[i]),
        forall|i: int| 0 <= i < s.len() ==> #[trigger] s[i] != ',' && !is_white_space(s[i]),
{
    let t = without_sign(s);
    let off: int = if s.len() > 0 && is_sign(s[0]) { 1 } else { 0 };
    assert(t =~= s.skip(off));
    assert forall|j: int| 0 <= j < t.len() implies is_float_char(#[trigger] t[j]) by {
        if is_mantissa(t) {
            assert(is_digit(t[j]) || t[j] == '.');
        } else if !is_decimal_number(t) {
        } else {
            let k = choose|k: int|
                0 <= k < t.len() && is_exponent_marker(#[trigger] t[k]) && is_mantissa(t.take(k))
                    && is_exponent(t.skip(k + 1));
            if j < k {
                assert(t.take(k)[j] == t[j]);
                assert(is_digit(t.take(k)[j]) || t.take(k)[j] == '.');
            } else if j > k {
                let x = t.skip(k + 1);
                assert(x[j - k - 1] == t[j]);
                let d = without_sign(x);
                if x.len() > 0 && is_sign(x[0]) {
                    if j - k - 1 > 0 {
                        assert(d[j - k - 2] == x[j - k - 1]);
                        assert(is_digit(d[j - k - 2]));
                    }
                } else {
                    assert(is_digit(d[j - k - 1]));
                }
            }
        }
    }
    assert(t.len() > 0) by {
        if is_decimal_number(t) && !is_mantissa(t) {
            let k = choose|k: int|
                0 <= k < t.len() && is_exponent_marker(#[trigger] t[k]) && is_mantissa(t.take(k))
                    && is_exponent(t.skip(k + 1));
        } else if is_mantissa(t) {
            let i = choose|i: int| 0 <= i < t.len() && is_digit(#[trigger] t[i]);
        }
    }
    assert forall|i: int| 0 <= i < s.len() implies is_float_char(#[trigger] s[i]) by {
        if i >= off {
            assert(s[i] == t[i - off]);
        }
    }
}

fn spells_word(t: &[char], lower: &[char], upper: &[char]) -> (r: bool)
    ensures
        r == spells_either_case(t@, lower@, upper@),
{
    if t.len() != lower.len() || t.len() != upper.len() {
        return false;
    }
    let mut i: usize = 0;
    while i < t.len()
        invariant
            t@.len() == lower@.len(),
            t@.len() == upper@.len(),
            i <= t@.len(),
            forall|j: int| 0 <= j < i ==> #[trigger] t@[j] == lower@[j] || t@[j] == upper@[j],
        decreases t@.len() - i,
    {
        if !(t[i] == lower[i] || t[i] == upper[i]) {
            assert(!(t@[i as int] == lower@[i as int] || t@[i as int] == upper@[i as int]));
            return false;
        }
        i = i + 1;
    }
    true
}

fn mantissa_chars(m: &[char]) -> (r: bool)
    ensures
        r == is_mantissa(m@),
{
    let mut dot: Option<usize> = None;
    let mut has_digit = false;
    let mut i: usize = 0;
    while i < m.len()
        invariant
            i <= m@.len(),
            forall|j: int| 0 <= j < i ==> is_digit(#[trigger] m@[j]) || m@[j] == '.',
            match dot {
                Some(p) => p < i && m@[p as int] == '.' && forall|j: int|
                    0 <= j < i && #[trigger] m@[j] == '.' ==> j == p,
                None => forall|j: int| 0 <= j < i ==> #[trigger] m@[j] != '.',
            },
            has_digit == exists|j: int| 0 <= j < i && is_digit(#[trigger] m@[j]),
        decreases m@.len() - i,
    {
        let c = m[i];
        if '0' <= c && c <= '9' {
            has_digit = true;
        } else if c == '.' {
            match dot {
                Some(p) => {
                    assert(m@[p as int] == '.' && m@[i as int] == '.' && p != i);
                    return false;
                },
                None => {
                    dot = Some(i);
                },
            }
        } else {
            assert(!(is_digit(m@[i as int]) || m@[i as int] == '.'));
            return false;
        }
        i = i + 1;
    }
    has_digit
}

fn exponent_chars(x: &[char]) -> (r: bool)
    ensures
        r == is_exponent(x@),
{
    let start: usize = if x.len() > 0 && (x[0] == '+' || x[0] == '-') { 1 } else { 0 };
    let d = &x[start..x.len()];
    assert(d@ =~= without_sign(x@));
    if d.len() == 0 {
        return false;
    }
    let mut i: usize = 0;
    while i < d.len()
        invariant
            i <= d@.len(),
            d@ == without_sign(x@),
            forall|j: int| 0 <= j < i ==> is_digit(#[trigger] d@[j]),
        decreases d@.len() - i,
    {
        if !('0' <= d[i] && d[i] <= '9') {
            assert(!is_digit(d@[i as int]));
            return false;
        }
        i = i + 1;
    }
    true
}

/// Whether `str::parse::<f64>` accepts `s`.
pub fn is_float_text(s: &str) -> (r: bool)
    ensures
        r == is_float_literal(s@),
        r ==> s@.len() > 0 && forall|i: int| 0 <= i < s@.len() ==> is_float_char(#[trigger] s@[i]),
{
    let r = float_text(s);
    if r {
        proof {
            lemma_float_literal_characters(s@);
        }
    }
    r
}

fn float_text(s: &str) -> (r: bool)
    ensures
        r == is_float_literal(s@),
{
    let v = chars_of(s);
    let n = v.len();
    let start: usize = if n > 0 && (v[0] == '+' || v[0] == '-') { 1 } else { 0 };
    let t = &v.as_slice()[start..n];
    assert(t@ =~= without_sign(s@));
    let inf = vec!['i', 'n', 'f'];
    let inf_upper = vec!['I', 'N', 'F'];
    let infinity = vec!['i', 'n', 'f', 'i', 'n', 'i', 't', 'y'];
    let infinity_upper = vec!['I', 'N', 'F', 'I', 'N', 'I', 'T', 'Y'];
    let nan = vec!['n', 'a', 'n'];
    let nan_upper = vec!['N', 'A', 'N'];
    assert(inf@ =~= seq!['i', 'n', 'f']);
    assert(inf_upper@ =~= seq!['I', 'N', 'F']);
    assert(infinity@ =~= seq!['i', 'n', 'f', 'i', 'n', 'i', 't', 'y']);
    assert(infinity_upper@ =~= seq!['I', 'N', 'F', 'I', 'N', 'I', 'T', 'Y']);
    assert(nan@ =~= seq!['n', 'a', 'n']);
    assert(nan_upper@ =~= seq!['N', 'A', 'N']);
    if spells_word(t, inf.as_slice(), inf_upper.as_slice())
        || spells_word(t, infinity.as_slice(), infinity_upper.as_slice())
        || spells_word(t, nan.as_slice(), nan_upper.as_slice())
    {
        return true;
    }
    decimal_number_chars(t)
}

fn decimal_number_chars(t: &[char]) -> (r: bool)
    ensures
        r == is_decimal_number(t@),
{
    let len = t.len();
    let mut k: usize = 0;
    while k < len && !(t[k] == 'e' || t[k] == 'E')
        invariant
            len == t@.len(),
            k <= len,
            forall|j: int| 0 <= j < k ==> !is_exponent_marker(#[trigger] t@[j]),
        decreases len - k,
    {
        k = k + 1;
    }
    if k == len {
        let r = mantissa_chars(t);
        assert(!(exists|j: int|
            0 <= j < t@.len() && is_exponent_marker(#[trigger] t@[j]) && is_mantissa(t@.take(j))
                && is_exponent(t@.skip(j + 1))));
        return r;
    }
    let m = &t[0..k];
    let x = &t[k + 1..len];
    assert(m@ =~= t@.take(k as int));
    assert(x@ =~= t@.skip(k + 1));
    assert(!is_mantissa(t@)) by {
        assert(!(is_digit(t@[k as int]) || t@[k as int] == '.'));
    }
    let r = mantissa_chars(m) && exponent_chars(x);
    if !r {
        assert forall|j: int|
            0 <= j < t@.len() && is_exponent_marker(#[trigger] t@[j]) implies !(is_mantissa(
                t@.take(j),
            ) && is_exponent(t@.skip(j + 1))) by {
            if j > k {
                assert(t@.take(j)[k as int] == t@[k as int]);
                assert(!(is_digit(t@.take(j)[k as int]) || t@.take(j)[k as int] == '.'));
            }
        }
    }
    r
}

} // verus!
