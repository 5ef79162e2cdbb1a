//! Text primitives shared by the chat domain and its adapters: Unicode
//! whitespace, trimming, tokenising, decimal and hexadecimal numerals.
use vstd::prelude::*;

verus! {

// ---------------------------------------------------------------------------
// Characters
// ---------------------------------------------------------------------------

/// The Unicode `White_Space` property, the set of characters that
/// `char::is_whitespace` accepts.
pub open spec fn is_space(c: char) -> bool {
    let x = c as u32;
    ||| 0x9 <= x <= 0xd
    ||| x == 0x20
    ||| x == 0x85
    ||| x == 0xa0
    ||| x == 0x1680
    ||| 0x2000 <= x <= 0x200a
    ||| x == 0x2028
    ||| x == 0x2029
    ||| x == 0x202f
    ||| x == 0x205f
    ||| x == 0x3000
}

/// Decides `is_space`.
pub fn is_space_char(c: char) -> (r: bool)
    ensures
        r == is_space(c),
{
    let x = c as u32;
    (0x9 <= x && x <= 0xd) || x == 0x20 || x == 0x85 || x == 0xa0 || x == 0x1680 || (0x2000 <= x
        && x <= 0x200a) || x == 0x2028 || x == 0x2029 || x == 0x202f || x == 0x205f || x == 0x3000
}

/// A text made of whitespace only (the empty text among them): what is left
/// of it after trimming is empty.
pub open spec fn is_blank(s: Seq<char>) -> bool {
    forall|i: int| 0 <= i < s.len() ==> is_space(#[trigger] s[i])
}

// ---------------------------------------------------------------------------
// Trimming
// ---------------------------------------------------------------------------

/// Number of whitespace characters at the start of `s`.
pub open spec fn leading_spaces(s: Seq<char>) -> nat
    decreases s.len(),
{
    if s.len() > 0 && is_space(s[0]) {
        1 + leading_spaces(s.drop_first())
    } else {
        0
    }
}

/// Number of whitespace characters at the end of `s`.
pub open spec fn trailing_spaces(s: Seq<char>) -> nat
    decreases s.len(),
{
    if s.len() > 0 && is_space(s.last()) {
        1 + trailing_spaces(s.drop_last())
    } else {
        0
    }
}

/// `s` without its leading whitespace (`str::trim_start`).
pub open spec fn trim_start(s: Seq<char>) -> Seq<char> {
    s.skip(leading_spaces(s) as int)
}

/// `s` without its trailing whitespace (`str::trim_end`).
pub open spec fn trim_end(s: Seq<char>) -> Seq<char> {
    s.take(s.len() - trailing_spaces(s))
}

/// `s` without leading and trailing whitespace (`str::trim`).
pub open spec fn trim(s: Seq<char>) -> Seq<char> {
    trim_end(trim_start(s))
}

/// `leading_spaces` is the length of the longest all-whitespace prefix.
pub proof fn lemma_leading_spaces(s: Seq<char>, k: int)
    requires
        0 <= k <= s.len(),
        forall|i: int| 0 <= i < k ==> is_space(#[trigger] s[i]),
        k == s.len() || !is_space(s[k]),
    ensures
        leading_spaces(s) == k,
    decreases s.len(),
{
    if k > 0 {
        let t = s.drop_first();
        assert forall|i: int| 0 <= i < k - 1 implies is_space(#[trigger] t[i]) by {
            assert(t[i] == s[i + 1]);
        }
        if k - 1 < t.len() {
            assert(t[k - 1] == s[k]);
        }
        lemma_leading_spaces(t, k - 1);
    }
}

/// `trailing_spaces` is the length of the longest all-whitespace suffix.
pub proof fn lemma_trailing_spaces(s: Seq<char>, k: int)
    requires
        0 <= k <= s.len(),
        forall|i: int| s.len() - k <= i < s.len() ==> is_space(#[trigger] s[i]),
        k == s.len() || !is_space(s[s.len() - 1 - k]),
    ensures
        trailing_spaces(s) == k,
    decreases s.len(),
{
    if k > 0 {
        let t = s.drop_last();
        assert(s.last() == s[s.len() - 1]);
        assert forall|i: int| t.len() - (k - 1) <= i < t.len() implies is_space(#[trigger] t[i]) by {
            assert(t[i] == s[i]);
        }
        if k - 1 < t.len() {
            assert(t[t.len() - 1 - (k - 1)] == s[s.len() - 1 - k]);
        }
        lemma_trailing_spaces(t, k - 1);
    }
}

/// The trailing whitespace run lies inside `s`, and is whitespace.
pub proof fn lemma_trailing_spaces_run(s: Seq<char>)
    ensures
        trailing_spaces(s) <= s.len(),
        forall|i: int| s.len() - trailing_spaces(s) <= i < s.len() ==> is_space(#[trigger] s[i]),
    decreases s.len(),
{
    if s.len() > 0 && is_space(s.last()) {
        let t = s.drop_last();
        lemma_trailing_spaces_run(t);
        assert forall|i: int| s.len() - trailing_spaces(s) <= i < s.len() implies is_space(#[trigger] s[i]) by {
            if i < s.len() - 1 {
                assert(s[i] == t[i]);
            }
        }
    }
}

/// The characters of `s`, one by one.
pub fn chars_of(s: &str) -> (v: Vec<char>)
    ensures
        v@ == s@,
{
    let mut v: Vec<char> = Vec::new();
    for c in it: s.chars()
        invariant
            it.seq() == s@,
            v@ == s@.take(it.index() as int),
    {
        assert(s@.take(it.index() + 1) =~= v@.push(c));
        v.push(c);
    }
    assert(s@.take(s@.len() as int) =~= s@);
    v
}

/// Appends one character to a string.
///
/// Trusted: `String::push`, which std documents as appending the character
/// to the end of the string; the contract says exactly that.
#[verifier::external_body]
pub(crate) fn push_char(s: &mut String, c: char)
    ensures
        final(s)@ == old(s)@.push(c),
{
    s.push(c);
}

/// The string made of `v[lo..hi]`.
pub fn string_of(v: &Vec<char>, lo: usize, hi: usize) -> (s: String)
    requires
        lo <= hi <= v.len(),
    ensures
        s@ == v@.subrange(lo as int, hi as int),
{
    let mut s = String::new();
    let mut i = lo;
    while i < hi
        invariant
            lo <= i <= hi <= v.len(),
            s@ == v@.subrange(lo as int, i as int),
        decreases hi - i,
    {
        assert(v@.subrange(lo as int, i + 1) =~= s@.push(v[i as int]));
        push_char(&mut s, v[i]);
        i = i + 1;
    }
    s
}

/// Index of the first character of `v` that is not whitespace (or its length).
pub fn first_non_space(v: &Vec<char>) -> (k: usize)
    ensures
        k == leading_spaces(v@),
        k <= v.len(),
        forall|i: int| 0 <= i < k ==> is_space(#[trigger] v@[i]),
        k < v.len() ==> !is_space(v@[k as int]),
{
    let mut k: usize = 0;
    while k < v.len() && is_space_char(v[k])
        invariant
            k <= v.len(),
            forall|i: int| 0 <= i < k ==> is_space(#[trigger] v@[i]),
        decreases v.len() - k,
    {
        k = k + 1;
    }
    proof {
        lemma_leading_spaces(v@, k as int);
    }
    k
}

/// Number of whitespace characters that end `v[..hi]`.
pub fn trailing_space_count(v: &Vec<char>, hi: usize) -> (k: usize)
    requires
        hi <= v.len(),
    ensures
        k == trailing_spaces(v@.take(hi as int)),
        k <= hi,
        forall|i: int| hi - k <= i < hi ==> is_space(#[trigger] v@[i]),
        k < hi ==> !is_space(v@[hi - 1 - k]),
{
    let ghost t = v@.take(hi as int);
    let mut k: usize = 0;
    while k < hi && is_space_char(v[hi - 1 - k])
        invariant
            k <= hi <= v.len(),
            t == v@.take(hi as int),
            forall|i: int| hi - k <= i < hi ==> is_space(#[trigger] t[i]),
            forall|i: int| hi - k <= i < hi ==> is_space(#[trigger] v@[i]),
        decreases hi - k,
    {
        assert(t[hi - 1 - k] == v@[hi - 1 - k]);
        k = k + 1;
    }
    proof {
        if k < hi {
            assert(t[t.len() - 1 - k] == v@[hi - 1 - k]);
        }
        lemma_trailing_spaces(t, k as int);
    }
    k
}

/// Bounds of the trimmed part of `v`: `trim(v) == v[lo..hi]`.
pub fn trim_bounds(v: &Vec<char>) -> (r: (usize, usize))
    ensures
        r.0 <= r.1 <= v.len(),
        v@.subrange(r.0 as int, r.1 as int) == trim(v@),
{
    let lo = first_non_space(v);
    let ghost ts = trim_start(v@);
    // trailing whitespace of the whole text, counted back from its end
    let t = trailing_space_count(v, v.len());
    assert(v@.take(v.len() as int) =~= v@);
    let hi = if v.len() - t >= lo { v.len() - t } else { lo };
    proof {
        let k = (hi - lo) as int;
        // the trailing whitespace of `ts` is the same run, cut at `lo`
        let tt = (ts.len() - k) as int;
        assert forall|i: int| ts.len() - tt <= i < ts.len() implies is_space(#[trigger] ts[i]) by {
            assert(ts[i] == v@[i + lo]);
        }
        if tt < ts.len() {
            assert(ts[ts.len() - 1 - tt] == v@[hi - 1]);
        }
        lemma_trailing_spaces(ts, tt);
        assert(v@.subrange(lo as int, hi as int) =~= trim(v@));
    }
    (lo, hi)
}

/// `str::trim` on a sequence of characters.
pub fn trim_chars(v: &Vec<char>) -> (r: Vec<char>)
    ensures
        r@ == trim(v@),
{
    let (lo, hi) = trim_bounds(v);
    let mut r: Vec<char> = Vec::new();
    let mut i = lo;
    while i < hi
        invariant
            lo <= i <= hi <= v.len(),
            r@ == v@.subrange(lo as int, i as int),
        decreases hi - i,
    {
        assert(v@.subrange(lo as int, i + 1) =~= r@.push(v[i as int]));
        r.push(v[i]);
        i = i + 1;
    }
    r
}

/// `str::trim`: the text without its leading and trailing whitespace.
pub fn trim_text(s: &str) -> (r: String)
    ensures
        r@ == trim(s@),
{
    let v = chars_of(s);
    let (lo, hi) = trim_bounds(&v);
    string_of(&v, lo, hi)
}

/// Whether the text is empty once trimmed (`s.trim().is_empty()`).
pub fn is_blank_text(s: &str) -> (r: bool)
    ensures
        r == is_blank(s@),
        r == (trim(s@).len() == 0),
{
    let v = chars_of(s);
    let (lo, hi) = trim_bounds(&v);
    let k = first_non_space(&v);
    proof {
        let t = trailing_spaces(v@);
        if k < v.len() {
            let ts = trim_start(v@);
            assert(ts[0] == v@[k as int]);
            lemma_trailing_spaces_run(ts);
            assert(trim(v@).len() > 0);
        } else {
            assert(trim(v@).len() == 0);
        }
    }
    k == v.len()
}

// ---------------------------------------------------------------------------
// Numerals
// ---------------------------------------------------------------------------

/// The digit for `d` (`0`..`9`, then `a`..`f`).
pub open spec fn digit(d: int) -> char {
    if d < 10 {
        (48 + d) as char
    } else {
        (87 + d) as char
    }
}

/// The numeral of `n` in base `b`, most significant digit first and without
/// leading zeros (`0` is written `0`). Base 10 is what `{}` prints for an
/// unsigned integer, base 16 what `{:x}` prints.
pub open spec fn numeral(n: nat, b: nat) -> Seq<char>
    recommends
        2 <= b <= 16,
    decreases n,
    when 2 <= b
{
    if n < b {
        seq![digit(n as int)]
    } else {
        proof {
            assert(n / b < n) by (nonlinear_arith)
                requires
                    n >= b,
                    b >= 2,
            ;
        }
        numeral(n / b, b).push(digit((n % b) as int))
    }
}

/// Decimal numeral of `n`.
pub open spec fn decimal(n: nat) -> Seq<char> {
    numeral(n, 10)
}

/// Lower-case hexadecimal numeral of `n`.
pub open spec fn lower_hex(n: nat) -> Seq<char> {
    numeral(n, 16)
}

/// One step of writing a numeral: the last digit is `m % b`, the rest is
/// the numeral of `m / b`.
proof fn lemma_numeral_step(m: nat, b: nat)
    requires
        2 <= b <= 16,
    ensures
        m % b < 16,
        m >= b ==> 0 < m / b < m && numeral(m, b) == numeral(m / b, b).push(digit((m % b) as int)),
        m < b ==> m / b == 0 && m % b == m && numeral(m, b) == seq![digit(m as int)],
{
    if m >= b {
        assert(0 < m / b < m) by (nonlinear_arith)
            requires
                m >= b,
                b >= 2,
        ;
    } else {
        assert(m / b == 0 && m % b == m) by (nonlinear_arith)
            requires
                m < b,
                b >= 2,
        ;
    }
    assert(m % b < b) by (nonlinear_arith)
        requires
            b >= 2,
    ;
}

fn digit_char(d: u128) -> (c: char)
    requires
        d < 16,
    ensures
        c == digit(d as int),
{
    let d8 = d as u8;
    if d8 < 10 {
        (48 + d8) as char
    } else {
        (87 + d8) as char
    }
}

/// Writes `n` in base `base`.
pub fn format_numeral(n: u128, base: u128) -> (s: String)
    requires
        2 <= base <= 16,
    ensures
        s@ == numeral(n as nat, base as nat),
{
    // digits from the least significant one on
    let mut rev: Vec<char> = Vec::new();
    let mut m: u128 = n;
    loop
        invariant_except_break
            numeral(n as nat, base as nat) == numeral(m as nat, base as nat) + rev@.reverse(),
        invariant
            2 <= base <= 16,
        ensures
            numeral(n as nat, base as nat) == rev@.reverse(),
        decreases m,
    {
        let d = m % base;
        let q = m / base;
        proof {
            lemma_numeral_step(m as nat, base as nat);
            let r2 = rev@.push(digit(d as int));
            assert(r2.reverse() =~= seq![digit(d as int)] + rev@.reverse());
            if m >= base {
                assert(numeral(m as nat, base as nat) + rev@.reverse() =~= numeral(
                    q as nat,
                    base as nat,
                ) + r2.reverse());
            }
        }
        let c = digit_char(d);
        rev.push(c);
        m = q;
        if m == 0 {
            break;
        }
    }
    let mut s = String::new();
    let mut i = rev.len();
    while i > 0
        invariant
            i <= rev.len(),
            s@ == rev@.reverse().take(rev.len() - i),
        decreases i,
    {
        i = i - 1;
        assert(rev@.reverse().take(rev.len() - i) =~= s@.push(rev@[i as int]));
        push_char(&mut s, rev[i]);
    }
    assert(rev@.reverse().take(rev.len() as int) =~= rev@.reverse());
    s
}

/// `n` written in decimal, as `format!("{}", n)` writes it.
pub fn decimal_text(n: u64) -> (s: String)
    ensures
        s@ == decimal(n as nat),
{
    format_numeral(n as u128, 10)
}

/// `n` written in lower-case hexadecimal, as `format!("{:x}", n)` writes it.
pub fn lower_hex_text(n: u128) -> (s: String)
    ensures
        s@ == lower_hex(n as nat),
{
    format_numeral(n, 16)
}

/// A decimal digit character.
pub open spec fn is_digit(c: char) -> bool {
    '0' <= c <= '9'
}

/// Value of a string of decimal digits.
pub open spec fn digits_value(s: Seq<char>) -> nat
    decreases s.len(),
{
    if s.len() == 0 {
        0
    } else {
        digits_value(s.drop_last()) * 10 + (s.last() as nat - 48) as nat
    }
}

/// Every character is a decimal digit.
pub open spec fn all_digits(s: Seq<char>) -> bool {
    forall|i: int| 0 <= i < s.len() ==> is_digit(#[trigger] s[i])
}

/// `s` without one leading `+`, if it has one.
pub open spec fn unsigned_body(s: Seq<char>) -> Seq<char> {
    if s.len() > 0 && s[0] == '+' {
        s.drop_first()
    } else {
        s
    }
}

/// What `str::parse::<usize>` gives: an optional `+`, then one or more
/// decimal digits whose value fits in a `usize`.
pub open spec fn parse_usize(s: Seq<char>) -> Option<usize> {
    let d = unsigned_body(s);
    if d.len() > 0 && all_digits(d) && digits_value(d) <= usize::MAX {
        Some(digits_value(d) as usize)
    } else {
        None
    }
}

/// A longer string of digits is worth at least as much as its prefix.
pub proof fn lemma_digits_value_prefix(s: Seq<char>, k: int)
    requires
        0 <= k <= s.len(),
        all_digits(s),
    ensures
        digits_value(s.take(k)) <= digits_value(s),
    decreases s.len() - k,
{
    if k < s.len() {
        let t = s.drop_last();
        assert forall|i: int| 0 <= i < t.len() implies is_digit(#[trigger] t[i]) by {
            assert(t[i] == s[i]);
        }
        if k < t.len() {
            lemma_digits_value_prefix(t, k);
        } else {
            assert(t.take(k) =~= t);
        }
        assert(t.take(k) =~= s.take(k));
        assert(is_digit(s[s.len() - 1]));
        let v = digits_value(t);
        assert(digits_value(s) == v * 10 + (s.last() as nat - 48) as nat);
        assert(v * 10 >= v) by (nonlinear_arith);
    } else {
        assert(s.take(k) =~= s);
    }
}

/// `str::parse::<usize>` on the characters `v[lo..hi]`.
pub fn parse_usize_chars(v: &Vec<char>, lo: usize, hi: usize) -> (r: Option<usize>)
    requires
        lo <= hi <= v.len(),
    ensures
        r == parse_usize(v@.subrange(lo as int, hi as int)),
{
    let ghost s = v@.subrange(lo as int, hi as int);
    let start = if lo < hi && v[lo] == '+' {
        lo + 1
    } else {
        lo
    };
    let ghost d = v@.subrange(start as int, hi as int);
    assert(d =~= unsigned_body(s));
    if start == hi {
        return None;
    }
    let mut acc: usize = 0;
    let mut i = start;
    while i < hi
        invariant
            lo <= start <= i <= hi <= v.len(),
            d == v@.subrange(start as int, hi as int),
            s == v@.subrange(lo as int, hi as int),
            d == unsigned_body(s),
            forall|j: int| 0 <= j < i - start ==> is_digit(#[trigger] d[j]),
            acc == digits_value(d.take(i - start)),
        decreases hi - i,
    {
        let c = v[i];
        assert(d[i - start] == c);
        if !('0' <= c && c <= '9') {
            assert(!is_digit(d[i - start]));
            assert(!all_digits(d));
            return None;
        }
        let dv = (c as u32 - 48) as usize;
        assert(d.take(i - start + 1).drop_last() =~= d.take(i - start));
        assert(d.take(i - start + 1).last() == c);
        assert(digits_value(d.take(i - start + 1)) == acc * 10 + dv);
        match acc.checked_mul(10) {
            None => {
                proof {
                    if all_digits(d) {
                        lemma_digits_value_prefix(d, i - start + 1);
                    }
                }
                return None;
            },
            Some(t) => match t.checked_add(dv) {
                None => {
                    proof {
                        let rest_all_digits = forall|j: int| 0 <= j < d.len() ==> is_digit(#[trigger] d[j]);
                        if rest_all_digits {
                            lemma_digits_value_prefix(d, i - start + 1);
                        }
                    }
                    return None;
                },
                Some(u) => {
                    acc = u;
                },
            },
        }
        i = i + 1;
    }
    assert(d.take(hi - start) =~= d);
    Some(acc)
}

/// Formatting a number in decimal and parsing it back gives the number.
pub proof fn lemma_parse_decimal(n: usize)
    ensures
        parse_usize(decimal(n as nat)) == Some(n),
{
    lemma_decimal_digits(n as nat);
}

/// A decimal numeral is made of digits, worth the number it writes.
pub proof fn lemma_decimal_digits(n: nat)
    ensures
        decimal(n).len() > 0,
        all_digits(decimal(n)),
        digits_value(decimal(n)) == n,
        decimal(n)[0] != '+',
    decreases n,
{
    if n >= 10 {
        lemma_decimal_digits(n / 10);
        let p = decimal(n / 10);
        assert(decimal(n) == p.push(digit((n % 10) as int)));
        assert(decimal(n).drop_last() =~= p);
        assert(decimal(n).last() == digit((n % 10) as int));
        assert((digit((n % 10) as int) as nat - 48) as nat == n % 10);
        assert((n / 10) * 10 + n % 10 == n) by (nonlinear_arith);
        assert(digits_value(decimal(n)) == digits_value(decimal(n).drop_last()) * 10 + (
        decimal(n).last() as nat - 48) as nat);
        assert(digits_value(decimal(n)) == digits_value(p) * 10 + n % 10);
        assert(decimal(n)[0] == p[0]);
    } else {
        assert(decimal(n) == seq![digit(n as int)]);
        assert(decimal(n).drop_last() =~= Seq::<char>::empty());
        assert((digit(n as int) as nat - 48) as nat == n);
        assert(digits_value(decimal(n)) == digits_value(decimal(n).drop_last()) * 10 + (
        decimal(n).last() as nat - 48) as nat);
    }
}

// ---------------------------------------------------------------------------
// Searching and comparing
// ---------------------------------------------------------------------------

/// Index of the first `c` in `s`, if any.
pub open spec fn first_index_of(s: Seq<char>, c: char) -> Option<int>
    decreases s.len(),
{
    if s.len() == 0 {
        None
    } else if s[0] == c {
        Some(0)
    } else {
        match first_index_of(s.drop_first(), c) {
            Some(i) => Some(i + 1),
            None => None,
        }
    }
}

/// `first_index_of` is the least index holding `c`.
pub proof fn lemma_first_index_of(s: Seq<char>, c: char, k: int)
    requires
        0 <= k <= s.len(),
        forall|i: int| 0 <= i < k ==> s[i] != c,
        k == s.len() || s[k] == c,
    ensures
        first_index_of(s, c) == (if k == s.len() {
            None::<int>
        } else {
            Some(k)
        }),
    decreases s.len(),
{
    if s.len() > 0 && k > 0 {
        let t = s.drop_first();
        assert(s[0] != c);
        assert forall|i: int| 0 <= i < k - 1 implies t[i] != c by {
            assert(t[i] == s[i + 1]);
        }
        if k < s.len() {
            assert(t[k - 1] == s[k]);
        }
        lemma_first_index_of(t, c, k - 1);
    }
}

/// The first index of `c` in `v`, if any.
pub fn find_char(v: &Vec<char>, c: char) -> (r: Option<usize>)
    ensures
        r matches Some(i) ==> first_index_of(v@, c) == Some(i as int),
        r is None ==> first_index_of(v@, c) is None,
        r matches Some(i) ==> i < v.len() && v@[i as int] == c,
{
    let mut i: usize = 0;
    while i < v.len()
        invariant
            i <= v.len(),
            forall|j: int| 0 <= j < i ==> v@[j] != c,
        decreases v.len() - i,
    {
        if v[i] == c {
            proof {
                lemma_first_index_of(v@, c, i as int);
            }
            return Some(i);
        }
        i = i + 1;
    }
    proof {
        lemma_first_index_of(v@, c, i as int);
    }
    None
}

/// Whether `v[from..]` starts with `p`.
pub fn starts_with_at(v: &Vec<char>, from: usize, p: &Vec<char>) -> (r: bool)
    requires
        from <= v.len(),
    ensures
        r == p@.is_prefix_of(v@.skip(from as int)),
{
    if p.len() > v.len() - from {
        return false;
    }
    let mut i: usize = 0;
    while i < p.len()
        invariant
            i <= p.len() <= v.len() - from,
            forall|j: int| 0 <= j < i ==> p@[j] == v@[from + j],
        decreases p.len() - i,
    {
        if p[i] != v[from + i] {
            assert(v@.skip(from as int)[i as int] == v@[from + i]);
            return false;
        }
        i = i + 1;
    }
    assert(p@ =~= v@.skip(from as int).take(p.len() as int));
    true
}

/// Whether the text `s` starts with the text `p`.
pub fn text_starts_with(s: &str, p: &str) -> (r: bool)
    ensures
        r == p@.is_prefix_of(s@),
{
    let v = chars_of(s);
    let w = chars_of(p);
    assert(v@.skip(0) =~= v@);
    starts_with_at(&v, 0, &w)
}

/// Whether two texts are equal.
pub fn text_eq(a: &str, b: &str) -> (r: bool)
    ensures
        r == (a@ == b@),
{
    let v = chars_of(a);
    let w = chars_of(b);
    if v.len() != w.len() {
        return false;
    }
    assert(v@.skip(0) =~= v@);
    let r = starts_with_at(&v, 0, &w);
    assert(r ==> w@ =~= v@);
    r
}

// ---------------------------------------------------------------------------
// Words
// ---------------------------------------------------------------------------

/// Number of characters before the first whitespace of `s` (its length if it
/// has none).
pub open spec fn word_len(s: Seq<char>) -> nat
    decreases s.len(),
{
    if s.len() > 0 && !is_space(s[0]) {
        1 + word_len(s.drop_first())
    } else {
        0
    }
}

/// `word_len(s) <= |s|`.
pub proof fn lemma_word_len_bound(s: Seq<char>)
    ensures
        word_len(s) <= s.len(),
    decreases s.len(),
{
    if s.len() > 0 && !is_space(s[0]) {
        lemma_word_len_bound(s.drop_first());
    }
}

/// `word_len` is the length of the longest prefix without whitespace.
pub proof fn lemma_word_len(s: Seq<char>, k: int)
    requires
        0 <= k <= s.len(),
        forall|i: int| 0 <= i < k ==> !is_space(#[trigger] s[i]),
        k == s.len() || is_space(s[k]),
    ensures
        word_len(s) == k,
    decreases s.len(),
{
    if k > 0 {
        let t = s.drop_first();
        assert forall|i: int| 0 <= i < k - 1 implies !is_space(#[trigger] t[i]) by {
            assert(t[i] == s[i + 1]);
        }
        if k - 1 < t.len() {
            assert(t[k - 1] == s[k]);
        }
        lemma_word_len(t, k - 1);
    }
}

/// The whitespace-separated words of `s`, in order (`str::split_whitespace`).
pub open spec fn words(s: Seq<char>) -> Seq<Seq<char>>
    decreases s.len(),
{
    if s.len() == 0 {
        seq![]
    } else if is_space(s[0]) {
        words(s.drop_first())
    } else {
        let k = word_len(s);
        proof {
            lemma_word_len_bound(s);
        }
        seq![s.take(k as int)] + words(s.skip(k as int))
    }
}

/// The first word of `v[from..]`, as bounds into `v`, and where the words
/// after it begin.
pub fn next_word(v: &Vec<char>, from: usize) -> (r: Option<(usize, usize)>)
    requires
        from <= v.len(),
    ensures
        r is None ==> words(v@.skip(from as int)).len() == 0,
        r matches Some((a, b)) ==> {
            &&& from <= a < b <= v.len()
            &&& words(v@.skip(from as int)) == seq![v@.subrange(a as int, b as int)] + words(
                v@.skip(b as int),
            )
        },
{
    let mut i = from;
    while i < v.len() && is_space_char(v[i])
        invariant
            from <= i <= v.len(),
            words(v@.skip(from as int)) == words(v@.skip(i as int)),
        decreases v.len() - i,
    {
        assert(v@.skip(i as int).drop_first() =~= v@.skip(i + 1));
        assert(v@.skip(i as int)[0] == v@[i as int]);
        i = i + 1;
    }
    if i == v.len() {
        assert(v@.skip(i as int).len() == 0);
        return None;
    }
    let mut j = i;
    while j < v.len() && !is_space_char(v[j])
        invariant
            i <= j <= v.len(),
            forall|k: int| i <= k < j ==> !is_space(#[trigger] v@[k]),
        decreases v.len() - j,
    {
        j = j + 1;
    }
    proof {
        let t = v@.skip(i as int);
        assert forall|k: int| 0 <= k < j - i implies !is_space(#[trigger] t[k]) by {
            assert(t[k] == v@[i + k]);
        }
        if j < v.len() {
            assert(t[j - i] == v@[j as int]);
        }
        lemma_word_len(t, j - i);
        assert(t[0] == v@[i as int]);
        assert(t.take(j - i) =~= v@.subrange(i as int, j as int));
        assert(t.skip(j - i) =~= v@.skip(j as int));
    }
    Some((i, j))
}

/// `s` with every leading repetition of `p` removed
/// (`str::trim_start_matches` with a text pattern).
pub open spec fn strip_prefix_repeatedly(s: Seq<char>, p: Seq<char>) -> Seq<char>
    decreases s.len(),
{
    if p.len() > 0 && p.is_prefix_of(s) {
        strip_prefix_repeatedly(s.skip(p.len() as int), p)
    } else {
        s
    }
}

/// Where `v` continues once every leading repetition of `p` is skipped.
pub fn skip_prefix_repeatedly(v: &Vec<char>, p: &Vec<char>) -> (k: usize)
    ensures
        k <= v.len(),
        v@.skip(k as int) == strip_prefix_repeatedly(v@, p@),
{
    let mut k: usize = 0;
    assert(v@.skip(0) =~= v@);
    while p.len() > 0 && starts_with_at(v, k, p)
        invariant
            k <= v.len(),
            strip_prefix_repeatedly(v@, p@) == strip_prefix_repeatedly(v@.skip(k as int), p@),
        decreases v.len() - k,
    {
        assert(v@.skip(k as int).skip(p.len() as int) =~= v@.skip(k + p.len()));
        k = k + p.len();
    }
    k
}

} // verus!
