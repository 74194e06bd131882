//! Character-level helpers: ASCII lowercasing, decimal integers, Unicode
//! trimming and the float syntax that `f64::from_str` accepts.

use vstd::prelude::*;

verus! {

broadcast use vstd::string::group_string_axioms;

/// `String::push` appends one character.
pub assume_specification[ std::string::String::push ](s: &mut std::string::String, ch: char)
    ensures
        final(s)@ == old(s)@.push(ch),
;

/// The characters of `s`, in order.
pub fn chars_of(s: &str) -> (v: Vec<char>)
    ensures
        v@ == s@,
{
    let mut v: Vec<char> = Vec::new();
    for c in it: s.chars()
        invariant
            v@ == it.seq().take(it.index() as int),
            it.seq() == s@,
    {
        v.push(c);
    }
    v
}

/// The characters `cs[from..to]` as a `String`.
pub fn string_of_range(cs: &Vec<char>, from: usize, to: usize) -> (s: String)
    requires
        from <= to <= cs@.len(),
    ensures
        s@ == cs@.subrange(from as int, to as int),
{
    let mut s = String::new();
    let mut i = from;
    while i < to
        invariant
            from <= i <= to <= cs@.len(),
            s@ == cs@.subrange(from as int, i as int),
        decreases to - i,
    {
        s.push(cs[i]);
        i = i + 1;
        assert(s@ =~= cs@.subrange(from as int, i as int));
    }
    s
}

/// A copy of `s` as an owned `String`.
pub fn owned(s: &str) -> (r: String)
    ensures
        r@ == s@,
{
    s.to_owned()
}

/// Appends `t` to `s`.
pub fn append(s: &mut String, t: &str)
    ensures
        final(s)@ == old(s)@ + t@,
{
    s.append(t);
}

/// The concatenation `a + b + c`, a frequent shape of messages.
pub fn concat3(a: &str, b: &str, c: &str) -> (r: String)
    ensures
        r@ == a@ + b@ + c@,
{
    let mut r = owned(a);
    r.append(b);
    r.append(c);
    r
}

/// Whether two strings hold the same characters.
pub fn str_eq(a: &str, b: &str) -> (r: bool)
    ensures
        r == (a@ == b@),
{
    a.to_owned() == b.to_owned()
}

// ---------------------------------------------------------------------------
// ASCII lowercasing
// ---------------------------------------------------------------------------
/// `c` with `A..=Z` mapped to `a..=z`, everything else unchanged.
pub open spec fn lower_char(c: char) -> char {
    if 'A' <= c && c <= 'Z' {
        ((c as int) + 32) as char
    } else {
        c
    }
}

/// `s` with every ASCII capital letter lowercased (`str::to_ascii_lowercase`).
pub open spec fn ascii_lower(s: Seq<char>) -> Seq<char> {
    s.map_values(|c: char| lower_char(c))
}

/// Whether `s` holds no ASCII capital letter.
pub open spec fn is_ascii_lower(s: Seq<char>) -> bool {
    forall|i: int| 0 <= i < s.len() ==> !('A' <= #[trigger] s[i] && s[i] <= 'Z')
}

pub fn lower_char_exec(c: char) -> (r: char)
    ensures
        r == lower_char(c),
{
    if 'A' <= c && c <= 'Z' {
        let b: u8 = (c as u32) as u8;
        ((b + 32) as char)
    } else {
        c
    }
}

/// `s` with ASCII capital letters lowercased.
pub fn to_ascii_lowercase(s: &str) -> (r: String)
    ensures
        r@ == ascii_lower(s@),
{
    let cs = chars_of(s);
    let mut r = String::new();
    let mut i: usize = 0;
    while i < cs.len()
        invariant
            cs@ == s@,
            i <= cs@.len(),
            r@ == ascii_lower(cs@.take(i as int)),
        decreases cs.len() - i,
    {
        let c = lower_char_exec(cs[i]);
        r.push(c);
        i = i + 1;
        assert(r@ =~= ascii_lower(cs@.take(i as int)));
    }
    assert(cs@.take(cs@.len() as int) =~= cs@);
    r
}

/// Lowercasing leaves no capital letter behind.
pub proof fn lemma_ascii_lower_is_lower(s: Seq<char>)
    ensures
        is_ascii_lower(ascii_lower(s)),
{
}

/// Lowercasing an already lowercase string changes nothing.
pub proof fn lemma_ascii_lower_idempotent(s: Seq<char>)
    requires
        is_ascii_lower(s),
    ensures
        ascii_lower(s) == s,
{
    assert(ascii_lower(s) =~= s);
}

// ---------------------------------------------------------------------------
// Decimal integers
// ---------------------------------------------------------------------------
/// The decimal digit for `d < 10`.
pub open spec fn digit_char(d: nat) -> char {
    (48 + d) as char
}

/// The decimal representation of `n`, without leading zeros.
pub open spec fn nat_text(n: nat) -> Seq<char>
    decreases n,
{
    if n < 10 {
        seq![digit_char(n)]
    } else {
        nat_text(n / 10).push(digit_char(n % 10))
    }
}

/// The decimal representation of `i`, with a leading `-` when negative.
pub open spec fn int_text(i: int) -> Seq<char> {
    if i < 0 {
        seq!['-'] + nat_text((-i) as nat)
    } else {
        nat_text(i as nat)
    }
}

pub open spec fn is_digit(c: char) -> bool {
    '0' <= c && c <= '9'
}

pub open spec fn digit_value(c: char) -> int {
    c as int - 48
}

pub open spec fn all_digits(s: Seq<char>) -> bool {
    forall|i: int| 0 <= i < s.len() ==> is_digit(#[trigger] s[i])
}

/// The value of a string of decimal digits.
pub open spec fn digits_value(s: Seq<char>) -> int
    decreases s.len(),
{
    if s.len() == 0 {
        0
    } else {
        digits_value(s.drop_last()) * 10 + digit_value(s.last())
    }
}

/// The integer that `s` spells in the syntax of Rust's integer `from_str`:
/// an optional `+` or `-`, then one or more decimal digits.
pub open spec fn int_value(s: Seq<char>) -> Option<int> {
    if s.len() > 0 && (s[0] == '+' || s[0] == '-') {
        let d = s.drop_first();
        if d.len() > 0 && all_digits(d) {
            Some(
                if s[0] == '-' {
                    -digits_value(d)
                } else {
                    digits_value(d)
                },
            )
        } else {
            None
        }
    } else if s.len() > 0 && all_digits(s) {
        Some(digits_value(s))
    } else {
        None
    }
}

/// What `i64::from_str` gives back: the value when `s` is an integer in range.
pub open spec fn i64_value(s: Seq<char>) -> Option<i64> {
    match int_value(s) {
        Some(v) => if i64::MIN <= v <= i64::MAX {
            Some(v as i64)
        } else {
            None
        },
        None => None,
    }
}

fn digit_exec(d: u64) -> (c: char)
    requires
        d < 10,
    ensures
        c == digit_char(d as nat),
{
    let b: u8 = (d as u8) + 48;
    b as char
}

fn push_nat_text(n: u64, out: &mut String)
    ensures
        final(out)@ == old(out)@ + nat_text(n as nat),
    decreases n,
{
    if n >= 10 {
        push_nat_text(n / 10, out);
    }
    let c = digit_exec(n % 10);
    out.push(c);
    assert(final(out)@ =~= old(out)@ + nat_text(n as nat)) by {
        if n < 10 {
            assert(n % 10 == n);
        }
    }
}

/// The decimal representation of `n`.
pub fn u64_text(n: u64) -> (r: String)
    ensures
        r@ == nat_text(n as nat),
{
    let mut r = String::new();
    push_nat_text(n, &mut r);
    assert(r@ =~= nat_text(n as nat));
    r
}

/// The decimal representation of `n`.
pub fn usize_text(n: usize) -> (r: String)
    ensures
        r@ == nat_text(n as nat),
{
    u64_text(n as u64)
}

/// The decimal representation of `i`, as `i64`'s `Display` writes it.
pub fn i64_text(i: i64) -> (r: String)
    ensures
        r@ == int_text(i as int),
{
    if i < 0 {
        let mag: u64 = (-(i as i128)) as u64;
        let mut r = String::new();
        r.push('-');
        push_nat_text(mag, &mut r);
        assert(r@ =~= int_text(i as int));
        r
    } else {
        u64_text(i as u64)
    }
}

proof fn lemma_digits_value_nonneg(s: Seq<char>)
    requires
        all_digits(s),
    ensures
        digits_value(s) >= 0,
    decreases s.len(),
{
    if s.len() > 0 {
        assert(all_digits(s.drop_last()));
        lemma_digits_value_nonneg(s.drop_last());
        assert(is_digit(s[s.len() - 1]));
    }
}

proof fn lemma_nat_text(n: nat)
    ensures
        nat_text(n).len() > 0,
        all_digits(nat_text(n)),
        digits_value(nat_text(n)) == n,
    decreases n,
{
    if n >= 10 {
        lemma_nat_text(n / 10);
        let t = nat_text(n);
        let q = n / 10;
        let r = (n % 10) as nat;
        assert(n == q * 10 + r);
        assert(digit_value(digit_char(r)) == r);
        assert(t.last() == digit_char(r));
        assert(digits_value(t) == digits_value(t.drop_last()) * 10 + digit_value(t.last()));
        assert(t.drop_last() =~= nat_text(n / 10));
        assert forall|i: int| 0 <= i < t.len() implies is_digit(#[trigger] t[i]) by {
            if i < t.len() - 1 {
                assert(t[i] == nat_text(n / 10)[i]);
            }
        }
    } else {
        let t = seq![digit_char(n)];
        assert(t.drop_last() =~= Seq::<char>::empty());
        assert(digits_value(t.drop_last()) == 0);
        assert(t.last() == digit_char(n));
        assert(digit_value(digit_char(n)) == n);
        assert(digits_value(t) == n);
    }
}

/// Writing an `i64` in decimal and reading it back gives the same number.
pub proof fn lemma_i64_text_roundtrip(i: i64)
    ensures
        i64_value(int_text(i as int)) == Some(i),
{
    if i < 0 {
        let n = (-i) as nat;
        lemma_nat_text(n);
        let s = int_text(i as int);
        assert(s.drop_first() =~= nat_text(n));
    } else {
        lemma_nat_text(i as nat);
    }
}

/// The value of `s` as an `i64`, as `i64::from_str` reads it.
pub fn parse_i64(s: &str) -> (r: Option<i64>)
    ensures
        r == i64_value(s@),
{
    let cs = chars_of(s);
    let n = cs.len();
    if n == 0 {
        return None;
    }
    let negative = cs[0] == '-';
    let start: usize = if cs[0] == '+' || cs[0] == '-' {
        1
    } else {
        0
    };
    if start == n {
        return None;
    }
    let ghost d = cs@.subrange(start as int, n as int);
    let limit: u128 = 0x8000_0000_0000_0000u128;
    let mut mag: u128 = 0;
    let mut over = false;
    let mut i = start;
    while i < n
        invariant
            cs@ == s@,
            n == cs@.len(),
            start <= i <= n,
            start < n,
            start == 0 || start == 1,
            (start == 1) == (cs@[0] == '+' || cs@[0] == '-'),
            negative == (cs@[0] == '-'),
            d == cs@.subrange(start as int, n as int),
            all_digits(cs@.subrange(start as int, i as int)),
            !over ==> mag == digits_value(cs@.subrange(start as int, i as int)) && mag <= limit,
            over ==> digits_value(cs@.subrange(start as int, i as int)) > limit,
            limit == 0x8000_0000_0000_0000u128,
        decreases n - i,
    {
        let c = cs[i];
        if !('0' <= c && c <= '9') {
            proof {
                assert(d[i - start] == c);
                if start == 1 {
                    assert(d =~= cs@.drop_first());
                } else {
                    assert(d =~= cs@);
                    assert(cs@[i as int] == c);
                }
            }
            assert(!all_digits(d));
            return None;
        }
        let dv: u128 = ((c as u32) - 48) as u128;
        let ghost p = cs@.subrange(start as int, i as int);
        let ghost p2 = cs@.subrange(start as int, i + 1);
        assert(p2.drop_last() =~= p);
        assert(p2.last() == c);
        proof {
            lemma_digits_value_nonneg(p);
        }
        if !over {
            let m2 = mag * 10 + dv;
            if m2 > limit {
                over = true;
            } else {
                mag = m2;
            }
        } else {
            assert(digits_value(p2) >= digits_value(p)) by (nonlinear_arith)
                requires
                    digits_value(p2) == digits_value(p) * 10 + digit_value(c),
                    digits_value(p) >= 0,
                    digit_value(c) >= 0,
            ;
        }
        i = i + 1;
        assert forall|k: int| 0 <= k < p2.len() implies is_digit(#[trigger] p2[k]) by {
            if k < p.len() {
                assert(p2[k] == p[k]);
            }
        }
    }
    assert(cs@.subrange(start as int, n as int) == d);
    if start == 1 {
        assert(d =~= cs@.drop_first());
    } else {
        assert(d =~= cs@);
    }
    if over {
        return None;
    }
    if negative {
        let v: i128 = -(mag as i128);
        Some(v as i64)
    } else if mag > 0x7FFF_FFFF_FFFF_FFFFu128 {
        None
    } else {
        Some(mag as i64)
    }
}

// ---------------------------------------------------------------------------
// Unicode whitespace and trimming
// ---------------------------------------------------------------------------
/// The Unicode `White_Space` property, which `char::is_whitespace` tests.
pub open spec fn is_white_space(c: char) -> bool {
    ('\t' <= c && c <= '\r') || c == ' ' || c == '\u{85}' || c == '\u{a0}' || c == '\u{1680}'
        || ('\u{2000}' <= c && c <= '\u{200a}') || c == '\u{2028}' || c == '\u{2029}' || c
        == '\u{202f}' || c == '\u{205f}' || c == '\u{3000}'
}

pub fn is_white_space_exec(c: char) -> (r: bool)
    ensures
        r == is_white_space(c),
{
    ('\t' <= c && c <= '\r') || c == ' ' || c == '\u{85}' || c == '\u{a0}' || c == '\u{1680}'
        || ('\u{2000}' <= c && c <= '\u{200a}') || c == '\u{2028}' || c == '\u{2029}' || c
        == '\u{202f}' || c == '\u{205f}' || c == '\u{3000}'
}

pub open spec fn trim_start(s: Seq<char>) -> Seq<char>
    decreases s.len(),
{
    if s.len() > 0 && is_white_space(s[0]) {
        trim_start(s.drop_first())
    } else {
        s
    }
}

pub open spec fn trim_end(s: Seq<char>) -> Seq<char>
    decreases s.len(),
{
    if s.len() > 0 && is_white_space(s.last()) {
        trim_end(s.drop_last())
    } else {
        s
    }
}

/// `s` without leading and trailing whitespace (`str::trim`).
pub open spec fn trim(s: Seq<char>) -> Seq<char> {
    trim_end(trim_start(s))
}

/// `s` without leading and trailing whitespace.
pub fn trim_text(s: &str) -> (r: String)
    ensures
        r@ == trim(s@),
{
    let cs = chars_of(s);
    let n = cs.len();
    let mut i: usize = 0;
    assert(cs@.skip(0) =~= cs@);
    while i < n && is_white_space_exec(cs[i])
        invariant
            cs@ == s@,
            n == cs@.len(),
            i <= n,
            trim_start(s@) == trim_start(cs@.skip(i as int)),
        decreases n - i,
    {
        assert(cs@.skip(i as int).drop_first() =~= cs@.skip(i + 1));
        i = i + 1;
    }
    assert(trim_start(s@) == cs@.skip(i as int));
    let mut j: usize = n;
    while j > i && is_white_space_exec(cs[j - 1])
        invariant
            cs@ == s@,
            n == cs@.len(),
            i <= j <= n,
            trim(s@) == trim_end(cs@.subrange(i as int, j as int)),
        decreases j - i,
    {
        assert(cs@.subrange(i as int, j as int).drop_last() =~= cs@.subrange(i as int, j - 1));
        j = j - 1;
    }
    assert(cs@.skip(i as int) =~= cs@.subrange(i as int, n as int));
    string_of_range(&cs, i, j)
}

// ---------------------------------------------------------------------------
// Float syntax
// ---------------------------------------------------------------------------
/// How many decimal digits start at position `i` of `s`.
pub open spec fn digit_run(s: Seq<char>, i: int) -> int
    decreases s.len() - i,
{
    if 0 <= i < s.len() && is_digit(s[i]) {
        1 + digit_run(s, i + 1)
    } else {
        0
    }
}

pub open spec fn is_sign(c: char) -> bool {
    c == '+' || c == '-'
}

/// An exponent: `e` or `E`, an optional sign, one or more digits.
pub open spec fn is_exponent(s: Seq<char>, i: int) -> bool {
    &&& i < s.len()
    &&& (s[i] == 'e' || s[i] == 'E')
    &&& {
        let j = if i + 1 < s.len() && is_sign(s[i + 1]) {
            i + 2
        } else {
            i + 1
        };
        let k = digit_run(s, j);
        k > 0 && j + k == s.len()
    }
}

/// A decimal number: digits with an optional fraction, at least one digit in
/// all, then an optional exponent.
pub open spec fn is_decimal(s: Seq<char>, i: int) -> bool {
    let d1 = digit_run(s, i);
    let has_point = i + d1 < s.len() && s[i + d1] == '.';
    let d2 = if has_point {
        digit_run(s, i + d1 + 1)
    } else {
        0
    };
    let end = if has_point {
        i + d1 + 1 + d2
    } else {
        i + d1
    };
    d1 + d2 > 0 && (end == s.len() || is_exponent(s, end))
}

/// What `f64::from_str` accepts: an optional sign, then `inf`, `infinity`,
/// `nan` (in any case) or a decimal number.
pub open spec fn is_float_text(s: Seq<char>) -> bool {
    let b = if s.len() > 0 && is_sign(s[0]) {
        1int
    } else {
        0int
    };
    let body = ascii_lower(s.skip(b));
    body == "inf"@ || body == "infinity"@ || body == "nan"@ || is_decimal(s, b)
}

fn digit_run_exec(cs: &Vec<char>, i: usize) -> (r: usize)
    requires
        i <= cs@.len(),
    ensures
        r as int == digit_run(cs@, i as int),
        i + r <= cs@.len(),
{
    let mut j = i;
    while j < cs.len() && '0' <= cs[j] && cs[j] <= '9'
        invariant
            i <= j <= cs@.len(),
            digit_run(cs@, i as int) == (j - i) + digit_run(cs@, j as int),
        decreases cs@.len() - j,
    {
        j = j + 1;
    }
    j - i
}

fn is_exponent_exec(cs: &Vec<char>, i: usize) -> (r: bool)
    requires
        i <= cs@.len(),
    ensures
        r == is_exponent(cs@, i as int),
{
    if i >= cs.len() || !(cs[i] == 'e' || cs[i] == 'E') {
        return false;
    }
    let j = if i + 1 < cs.len() && (cs[i + 1] == '+' || cs[i + 1] == '-') {
        i + 2
    } else {
        i + 1
    };
    let k = digit_run_exec(cs, j);
    k > 0 && j + k == cs.len()
}

fn lowered_eq(cs: &Vec<char>, from: usize, word: &str) -> (r: bool)
    requires
        from <= cs@.len(),
    ensures
        r == (ascii_lower(cs@.skip(from as int)) == word@),
{
    let tail = string_of_range(cs, from, cs.len());
    assert(tail@ =~= cs@.skip(from as int));
    let low = to_ascii_lowercase(tail.as_str());
    str_eq(low.as_str(), word)
}

/// Whether `f64::from_str` accepts `s`.
pub fn is_float_text_exec(s: &str) -> (r: bool)
    ensures
        r == is_float_text(s@),
{
    let cs = chars_of(s);
    let b: usize = if cs.len() > 0 && (cs[0] == '+' || cs[0] == '-') {
        1
    } else {
        0
    };
    if lowered_eq(&cs, b, "inf") || lowered_eq(&cs, b, "infinity") || lowered_eq(&cs, b, "nan") {
        return true;
    }
    let d1 = digit_run_exec(&cs, b);
    let has_point = b + d1 < cs.len() && cs[b + d1] == '.';
    let d2 = if has_point {
        digit_run_exec(&cs, b + d1 + 1)
    } else {
        0
    };
    let end = if has_point {
        b + d1 + 1 + d2
    } else {
        b + d1
    };
    d1 + d2 > 0 && (end == cs.len() || is_exponent_exec(&cs, end))
}

} // verus!
