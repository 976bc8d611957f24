use vstd::prelude::*;

verus! {

/// The Unicode `White_Space` property.
pub open spec fn is_white_space(c: char) -> bool {
    let u: u32 = c as u32;
    ||| 0x09 <= u <= 0x0D
    ||| u == 0x20
    ||| u == 0x85
    ||| u == 0xA0
    ||| u == 0x1680
    ||| 0x2000 <= u <= 0x200A
    ||| u == 0x2028
    ||| u == 0x2029
    ||| u == 0x202F
    ||| u == 0x205F
    ||| u == 0x3000
}

/// Whether the character has the Unicode `White_Space` property, as
/// `char::is_whitespace` decides.
pub fn char_is_whitespace(c: char) -> (r: bool)
    ensures
        r == is_white_space(c),
{
    let u: u32 = c as u32;
    (0x09 <= u && u <= 0x0D) || u == 0x20 || u == 0x85 || u == 0xA0 || u == 0x1680
        || (0x2000 <= u && u <= 0x200A) || u == 0x2028 || u == 0x2029 || u == 0x202F
        || u == 0x205F || u == 0x3000
}

/// `s` without its leading whitespace.
pub open spec fn trim_start(s: Seq<char>) -> Seq<char>
    decreases s.len(),
{
    if s.len() > 0 && is_white_space(s[0]) {
        trim_start(s.drop_first())
    } else {
        s
    }
}

/// `s` without its trailing whitespace.
pub open spec fn trim_end(s: Seq<char>) -> Seq<char>
    decreases s.len(),
{
    if s.len() > 0 && is_white_space(s.last()) {
        trim_end(s.drop_last())
    } else {
        s
    }
}

/// `s` without its leading and trailing whitespace.
pub open spec fn trim(s: Seq<char>) -> Seq<char> {
    trim_end(trim_start(s))
}

/// The characters of a string slice, in order.
pub fn chars_of(s: &str) -> (r: Vec<char>)
    ensures
        r@ == s@,
{
    broadcast use vstd::string::axiom_spec_iter;
    let mut r: Vec<char> = Vec::new();
    for c in it: s.chars()
        invariant
            it.seq() == s@,
            r@ == s@.take(it.index()),
    {
        r.push(c);
        assert(r@ =~= s@.take(it.index() + 1));
    }
    assert(s@.take(s@.len() as int) =~= s@);
    r
}

/// The bounds `(start, end)` of `v` without its leading and trailing
/// whitespace.
pub fn trim_bounds(v: &[char]) -> (r: (usize, usize))
    ensures
        r.0 <= r.1 <= v@.len(),
        v@.subrange(r.0 as int, r.1 as int) == trim(v@),
{
    let n: usize = v.len();
    let mut i: usize = 0;
    assert(v@.subrange(0, n as int) =~= v@);
    loop
        invariant
            n == v@.len(),
            i <= n,
            trim_start(v@) == trim_start(v@.subrange(i as int, n as int)),
        ensures
            i <= n,
            trim_start(v@) == v@.subrange(i as int, n as int),
        decreases n - i,
    {
        if i == n || !char_is_whitespace(v[i]) {
            break;
        }
        assert(v@.subrange(i as int, n as int).drop_first() =~= v@.subrange(i + 1, n as int));
        i = i + 1;
    }
    let mut j: usize = n;
    loop
        invariant
            n == v@.len(),
            i <= j <= n,
            trim_start(v@) == v@.subrange(i as int, n as int),
            trim(v@) == trim_end(v@.subrange(i as int, j as int)),
        ensures
            i <= j <= n,
            trim(v@) == v@.subrange(i as int, j as int),
        decreases j - i,
    {
        if j == i || !char_is_whitespace(v[j - 1]) {
            break;
        }
        assert(v@.subrange(i as int, j as int).drop_last() =~= v@.subrange(i as int, j - 1));
        j = j - 1;
    }
    (i, j)
}


/// Whether `c` is an ASCII decimal digit.
pub open spec fn is_digit(c: char) -> bool {
    '0' <= c <= '9'
}

/// The value of a decimal digit.
pub open spec fn digit_value(c: char) -> int {
    (c as int) - ('0' as int)
}

/// Whether every character of `s` is a decimal digit.
pub open spec fn all_digits(s: Seq<char>) -> bool {
    forall|i: int| 0 <= i < s.len() ==> is_digit(#[trigger] s[i])
}

/// The number that the decimal digits `s` denote, most significant first.
pub open spec fn decimal_value(s: Seq<char>) -> int
    decreases s.len(),
{
    if s.len() == 0 {
        0
    } else {
        decimal_value(s.drop_last()) * 10 + digit_value(s.last())
    }
}

/// What parsing `s` as an `i32` gives: an optional `+` or `-` sign followed by
/// at least one decimal digit and nothing else, denoting a number in the range
/// of `i32`; any other text (surrounding whitespace too) is rejected.
pub open spec fn spec_parse_i32(s: Seq<char>) -> Option<i32> {
    let signed = s.len() > 0 && (s[0] == '-' || s[0] == '+');
    let negative = s.len() > 0 && s[0] == '-';
    let body = if signed { s.drop_first() } else { s };
    if body.len() == 0 || !all_digits(body) {
        None
    } else {
        let v: int = if negative { -decimal_value(body) } else { decimal_value(body) };
        if i32::MIN <= v <= i32::MAX { Some(v as i32) } else { None }
    }
}

/// Decimal digits never denote a negative number, and dropping digits from
/// the end never makes the number larger.
proof fn lemma_decimal_value_grows(t: Seq<char>, k: int)
    requires
        all_digits(t),
        0 <= k <= t.len(),
    ensures
        0 <= decimal_value(t.take(k)) <= decimal_value(t),
    decreases t.len(),
{
    if k == t.len() {
        assert(t.take(k) =~= t);
        if t.len() > 0 {
            lemma_decimal_value_grows(t.drop_last(), 0);
        }
    } else {
        let u = t.drop_last();
        assert(all_digits(u));
        lemma_decimal_value_grows(u, k);
        assert(u.take(k) =~= t.take(k));
        assert(is_digit(t[t.len() - 1]));
    }
}

/// Parses decimal text as an `i32`: an optional sign and then digits only.
#[verifier::spinoff_prover]
#[verifier::rlimit(30)]
pub fn parse_i32_chars(s: &[char]) -> (r: Option<i32>)
    ensures
        r == spec_parse_i32(s@),
{
    let n: usize = s.len();
    if n == 0 {
        return None;
    }
    let negative = s[0] == '-';
    let start: usize = if s[0] == '-' || s[0] == '+' { 1 } else { 0 };
    let ghost body = if start == 1 { s@.drop_first() } else { s@ };
    assert(body =~= s@.subrange(start as int, n as int));
    if start == n {
        return None;
    }
    let mut value: i64 = 0;
    let mut k: usize = start;
    assert(body.take(0) =~= Seq::<char>::empty());
    while k < n
        invariant
            n == s@.len(),
            n > 0,
            body == (if s@[0] == '-' || s@[0] == '+' { s@.drop_first() } else { s@ }),
            negative == (s@[0] == '-'),
            start <= k <= n,
            body == s@.subrange(start as int, n as int),
            all_digits(body.take(k - start)),
            value == decimal_value(body.take(k - start)),
            0 <= value <= 0x8000_0000,
        decreases n - k,
    {
        let c = s[k];
        if !('0' <= c && c <= '9') {
            assert(body[k - start] == c && !is_digit(body[k - start]));
            return None;
        }
        let d: u32 = (c as u32) - ('0' as u32);
        value = value * 10 + (d as i64);
        assert(body.take(k + 1 - start).drop_last() =~= body.take(k - start));
        k = k + 1;
        assert(all_digits(body.take(k - start)));
        assert(value == decimal_value(body.take(k - start)));
        if value > 0x8000_0000 {
            proof {
                if all_digits(body) {
                    lemma_decimal_value_grows(body, k - start);
                }
            }
            return None;
        }
    }
    assert(body.take(n - start) =~= body);
    if negative {
        Some((-value) as i32)
    } else if value <= 0x7fff_ffff {
        Some(value as i32)
    } else {
        None
    }
}


/// Appending a digit to decimal digits multiplies the number they denote by
/// ten and adds the digit's value, its code point less that of `'0'` (48);
/// no digit, `'0'` included, is ever skipped.
pub proof fn lemma_decimal_value_append_digit(s: Seq<char>, d: char)
    requires
        is_digit(d),
    ensures
        decimal_value(s.push(d)) == 10 * decimal_value(s) + ((d as int) - 48),
{
    assert(s.push(d).drop_last() =~= s);
}

/// The digit character for a value below ten.
pub open spec fn digit_char(d: int) -> char {
    if d == 0 {
        '0'
    } else if d == 1 {
        '1'
    } else if d == 2 {
        '2'
    } else if d == 3 {
        '3'
    } else if d == 4 {
        '4'
    } else if d == 5 {
        '5'
    } else if d == 6 {
        '6'
    } else if d == 7 {
        '7'
    } else if d == 8 {
        '8'
    } else {
        '9'
    }
}

/// The shortest decimal digits of a natural number, most significant first.
pub open spec fn decimal_digits(n: nat) -> Seq<char>
    decreases n,
{
    if n < 10 {
        seq![digit_char(n as int)]
    } else {
        decimal_digits(n / 10).push(digit_char((n % 10) as int))
    }
}

/// The decimal text of an integer: a `-` before the digits of a negative one.
pub open spec fn decimal_text(n: int) -> Seq<char> {
    if n < 0 {
        seq!['-'] + decimal_digits((-n) as nat)
    } else {
        decimal_digits(n as nat)
    }
}

proof fn lemma_decimal_digits_denote(n: nat)
    ensures
        decimal_digits(n).len() > 0,
        all_digits(decimal_digits(n)),
        decimal_digits(n)[0] != '-' && decimal_digits(n)[0] != '+',
        decimal_value(decimal_digits(n)) == n,
    decreases n,
{
    let d = (n % 10) as int;
    assert(is_digit(digit_char(d)) && (digit_char(d) as int) - 48 == d) by {
        assert(0 <= d < 10);
    }
    if n >= 10 {
        lemma_decimal_digits_denote(n / 10);
        let t = decimal_digits(n / 10);
        lemma_decimal_value_append_digit(t, digit_char(d));
        assert(decimal_digits(n) == t.push(digit_char(d)));
        assert(decimal_digits(n)[0] == t[0]);
        assert forall|i: int| 0 <= i < decimal_digits(n).len() implies is_digit(
            #[trigger] decimal_digits(n)[i],
        ) by {
            if i < t.len() {
                assert(decimal_digits(n)[i] == t[i]);
            }
        }
    } else {
        assert(decimal_digits(n) =~= Seq::<char>::empty().push(digit_char(n as int)));
        lemma_decimal_value_append_digit(Seq::<char>::empty(), digit_char(n as int));
        assert(Seq::<char>::empty().push(digit_char(n as int)).drop_last() =~= Seq::<char>::empty());
    }
}

/// Every `i32` reads back from its decimal text: parsing the text of `n`,
/// with a `-` when `n` is negative, gives `n`, zero and both ends of the
/// range included.
pub proof fn lemma_parse_round_trip(n: i32)
    ensures
        spec_parse_i32(decimal_text(n as int)) == Some(n),
{
    if n < 0 {
        let m = (-(n as int)) as nat;
        lemma_decimal_digits_denote(m);
        let t = decimal_text(n as int);
        assert(t[0] == '-');
        assert(t.drop_first() =~= decimal_digits(m));
    } else {
        lemma_decimal_digits_denote(n as nat);
    }
}

/// The sign of a numeral: digits alone or after `+` read as the number they
/// denote when it fits in an `i32`, and after `-` as its negation when that
/// fits; so whenever both forms are in range they read as negations of each
/// other, and the three forms of zero all read as 0.
pub proof fn lemma_parse_signs(digits: Seq<char>)
    requires
        digits.len() > 0,
        all_digits(digits),
    ensures
        spec_parse_i32(digits) == (if decimal_value(digits) <= i32::MAX {
            Some(decimal_value(digits) as i32)
        } else {
            None
        }),
        spec_parse_i32(seq!['+'] + digits) == spec_parse_i32(digits),
        spec_parse_i32(seq!['-'] + digits) == (if decimal_value(digits) <= 0x8000_0000 {
            Some((-decimal_value(digits)) as i32)
        } else {
            None
        }),
        spec_parse_i32(digits) is Some && spec_parse_i32(seq!['-'] + digits) is Some
            ==> spec_parse_i32(digits)->0 == -spec_parse_i32(seq!['-'] + digits)->0,
{
    assert(is_digit(digits[0]));
    assert((seq!['+'] + digits).drop_first() =~= digits);
    assert((seq!['-'] + digits).drop_first() =~= digits);
    assert((seq!['+'] + digits)[0] == '+');
    assert((seq!['-'] + digits)[0] == '-');
    lemma_decimal_value_nonnegative(digits);
}

proof fn lemma_decimal_value_nonnegative(t: Seq<char>)
    requires
        all_digits(t),
    ensures
        decimal_value(t) >= 0,
{
    lemma_decimal_value_grows(t, 0);
    assert(t.take(0) =~= Seq::<char>::empty());
}

/// Reads a number from text: the text without its surrounding whitespace,
/// parsed as an `i32`; `None` when that is not a number in range.
pub fn parse_number(input: &str) -> (r: Option<i32>)
    ensures
        r == spec_parse_i32(trim(input@)),
{
    let chars = chars_of(input);
    let (start, end): (usize, usize) = trim_bounds(chars.as_slice());
    let trimmed = &chars.as_slice()[start..end];
    parse_i32_chars(trimmed)
}

/// The value one past `n`, for an `n` that has a successor.
pub fn successor(n: i32) -> (r: i32)
    requires
        n < i32::MAX,
    ensures
        r == n + 1,
{
    n + 1
}

/// The values that one name takes through shadowing: the first binding,
/// the shadowing binding, the binding in an inner scope, and the outer one
/// seen again after that scope ends.
pub struct ShadowedValues {
    pub first: i32,
    pub shadowed: i32,
    pub inner: i32,
    pub outer_after: i32,
}

/// Binds `x`, shadows it with `x + 1`, shadows that with twice its value in
/// an inner scope, and reads the name again once the inner scope has ended:
/// the inner binding never changes the outer one.
pub fn shadow_scopes(x: i32) -> (r: ShadowedValues)
    requires
        i32::MIN <= 2 * (x + 1) <= i32::MAX,
    ensures
        r.first == x,
        r.shadowed == x + 1,
        r.inner == 2 * (x + 1),
        r.outer_after == r.shadowed,
{
    let first: i32 = x;
    let x: i32 = x + 1;
    let inner: i32;
    {
        let x: i32 = x * 2;
        inner = x;
    }
    ShadowedValues { first, shadowed: x, inner, outer_after: x }
}


/// Whether every character of `s` is whitespace.
pub open spec fn all_white_space(s: Seq<char>) -> bool {
    forall|i: int| 0 <= i < s.len() ==> is_white_space(#[trigger] s[i])
}

proof fn lemma_trim_start_skips_prefix(w: Seq<char>, x: Seq<char>)
    requires
        all_white_space(w),
    ensures
        trim_start(w + x) == trim_start(x),
    decreases w.len(),
{
    if w.len() == 0 {
        assert(w + x =~= x);
    } else {
        assert((w + x)[0] == w[0]);
        assert((w + x).drop_first() =~= w.drop_first() + x);
        lemma_trim_start_skips_prefix(w.drop_first(), x);
    }
}

proof fn lemma_trim_end_skips_suffix(x: Seq<char>, w: Seq<char>)
    requires
        all_white_space(w),
    ensures
        trim_end(x + w) == trim_end(x),
    decreases w.len(),
{
    if w.len() == 0 {
        assert(x + w =~= x);
    } else {
        assert((x + w).last() == w.last());
        assert((x + w).drop_last() =~= x + w.drop_last());
        lemma_trim_end_skips_suffix(x, w.drop_last());
    }
}

proof fn lemma_trim_ignores_suffix(x: Seq<char>, w: Seq<char>)
    requires
        all_white_space(w),
    ensures
        trim(x + w) == trim(x),
    decreases x.len(),
{
    if x.len() == 0 {
        assert(x + w =~= w + x);
        lemma_trim_start_skips_prefix(w, x);
    } else if is_white_space(x[0]) {
        assert((x + w)[0] == x[0]);
        assert((x + w).drop_first() =~= x.drop_first() + w);
        lemma_trim_ignores_suffix(x.drop_first(), w);
    } else {
        assert((x + w)[0] == x[0]);
        lemma_trim_end_skips_suffix(x, w);
    }
}

/// Whitespace around a number does not change what it reads as: trimming
/// text padded with whitespace on both sides gives what trimming the text
/// alone gives, and so does parsing the trimmed result.
pub proof fn lemma_surrounding_whitespace_ignored(before: Seq<char>, s: Seq<char>, after: Seq<char>)
    requires
        all_white_space(before),
        all_white_space(after),
    ensures
        trim(before + s + after) == trim(s),
        spec_parse_i32(trim(before + s + after)) == spec_parse_i32(trim(s)),
{
    assert(before + s + after =~= before + (s + after));
    lemma_trim_start_skips_prefix(before, s + after);
    lemma_trim_ignores_suffix(s, after);
}

} // verus!
