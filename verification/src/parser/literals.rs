//! The values of literal tokens, as `str::parse` and `from_str_radix`
//! read them: integers in decimal and hexadecimal, and which texts are
//! floating-point numbers.

use vstd::prelude::*;
use crate::lexer::scanner::is_digit;
use crate::text::{decimal, signed_decimal};

verus! {

/// The value of a digit in base 10 (`hex == false`) or 16 (`hex == true`).
pub open spec fn digit_in(c: char, hex: bool) -> Option<int> {
    if '0' <= c && c <= '9' {
        Some(c as int - '0' as int)
    } else if hex && 'a' <= c && c <= 'f' {
        Some(c as int - 'a' as int + 10)
    } else if hex && 'A' <= c && c <= 'F' {
        Some(c as int - 'A' as int + 10)
    } else {
        None
    }
}

pub open spec fn radix(hex: bool) -> int {
    if hex { 16 } else { 10 }
}

/// Whether every character is a digit of the base.
pub open spec fn all_digits_in(d: Seq<char>, hex: bool) -> bool {
    forall|i: int| 0 <= i < d.len() ==> (#[trigger] digit_in(d[i], hex)) is Some
}

/// The number that a string of digits writes.
pub open spec fn digits_value(d: Seq<char>, hex: bool) -> int
    decreases d.len(),
{
    if d.len() == 0 {
        0
    } else {
        digits_value(d.drop_last(), hex) * radix(hex) + match digit_in(d.last(), hex) {
            Some(v) => v,
            None => 0,
        }
    }
}

/// An unsigned number: an optional `+`, then one or more digits, whose
/// value fits in `u64`.
pub open spec fn unsigned_text(s: Seq<char>, hex: bool) -> Option<u64> {
    let d = if s.len() > 0 && s[0] == '+' { s.drop_first() } else { s };
    if d.len() > 0 && all_digits_in(d, hex) && digits_value(d, hex) <= u64::MAX {
        Some(digits_value(d, hex) as u64)
    } else {
        None
    }
}

/// A signed decimal number: an optional `+` or `-`, then one or more
/// digits, whose value fits in `i64`.
pub open spec fn i64_text(s: Seq<char>) -> Option<i64> {
    let neg = s.len() > 0 && s[0] == '-';
    let d = if s.len() > 0 && (s[0] == '+' || s[0] == '-') { s.drop_first() } else { s };
    let v = if neg { -digits_value(d, false) } else { digits_value(d, false) };
    if d.len() > 0 && all_digits_in(d, false) && i64::MIN <= v <= i64::MAX {
        Some(v as i64)
    } else {
        None
    }
}

/// The text without every leading `0x`.
pub open spec fn without_hex_prefixes(s: Seq<char>) -> Seq<char>
    decreases s.len(),
{
    if s.len() >= 2 && s[0] == '0' && s[1] == 'x' {
        without_hex_prefixes(s.skip(2))
    } else {
        s
    }
}

proof fn lemma_digits_value_prefix(d: Seq<char>, k: int, hex: bool)
    requires
        0 <= k <= d.len(),
        all_digits_in(d, hex),
    ensures
        0 <= digits_value(d.take(k), hex) <= digits_value(d, hex),
    decreases d.len(),
{
    if d.len() == 0 {
        assert(d.take(k) =~= d);
    } else {
        let dl = d.drop_last();
        assert(all_digits_in(dl, hex)) by {
            assert forall|i: int| 0 <= i < dl.len() implies (#[trigger] digit_in(dl[i], hex)) is Some by {
                assert(dl[i] == d[i]);
            }
        }
        assert(digit_in(d[d.len() - 1], hex) is Some);
        lemma_digits_value_prefix(dl, dl.len() as int, hex);
        assert(dl.take(dl.len() as int) =~= dl);
        if k == d.len() {
            assert(d.take(k) =~= d);
        } else {
            lemma_digits_value_prefix(dl, k, hex);
            assert(dl.take(k) =~= d.take(k));
        }
    }
}

/// The value of the digits `cs[from..]`, if they are one or more digits
/// of the base and their value fits in `u64`.
fn read_digits(cs: &Vec<char>, from: usize, hex: bool) -> (r: Option<u64>)
    requires
        from <= cs@.len(),
    ensures
        ({
            let d = cs@.skip(from as int);
            r == (if d.len() > 0 && all_digits_in(d, hex) && digits_value(d, hex) <= u64::MAX {
                Some(digits_value(d, hex) as u64)
            } else {
                None
            })
        }),
{
    let ghost d = cs@.skip(from as int);
    if from >= cs.len() {
        return None;
    }
    let base: u64 = if hex { 16 } else { 10 };
    let mut v: u64 = 0;
    let mut i: usize = from;
    while i < cs.len()
        invariant
            from <= i <= cs@.len(),
            d == cs@.skip(from as int),
            base == radix(hex),
            all_digits_in(d.take(i - from), hex),
            v == digits_value(d.take(i - from), hex),
        decreases cs@.len() - i,
    {
        let c = cs[i];
        let dv: u64 = if '0' <= c && c <= '9' {
            (c as u64) - ('0' as u64)
        } else if hex && 'a' <= c && c <= 'f' {
            (c as u64) - ('a' as u64) + 10
        } else if hex && 'A' <= c && c <= 'F' {
            (c as u64) - ('A' as u64) + 10
        } else {
            proof {
                assert(d[i - from] == c);
                assert(digit_in(d[i - from], hex) is None);
                assert(!all_digits_in(d, hex));
            }
            return None;
        };
        let ghost t = d.take(i - from + 1);
        proof {
            assert(d[i - from] == c);
            assert(t.drop_last() =~= d.take(i - from));
            assert(t.last() == c);
            assert(all_digits_in(t, hex)) by {
                assert forall|j: int| 0 <= j < t.len() implies (#[trigger] digit_in(t[j], hex)) is Some by {
                    if j < t.len() - 1 {
                        assert(t[j] == d.take(i - from)[j]);
                    }
                }
            }
        }
        match v.checked_mul(base) {
            Some(m) => {
                match m.checked_add(dv) {
                    Some(n) => {
                        v = n;
                    },
                    None => {
                        proof {
                            if all_digits_in(d, hex) {
                                lemma_digits_value_prefix(d, i - from + 1, hex);
                            }
                        }
                        return None;
                    },
                }
            },
            None => {
                proof {
                    if all_digits_in(d, hex) {
                        lemma_digits_value_prefix(d, i - from + 1, hex);
                        assert(digits_value(t, hex) >= v * base);
                    }
                }
                return None;
            },
        }
        i = i + 1;
    }
    proof {
        assert(d.take(i - from) =~= d);
    }
    Some(v)
}

/// `s.parse::<u64>()` (`hex == false`) or `u64::from_str_radix(s, 16)`
/// (`hex == true`).
pub fn parse_unsigned(s: &str, hex: bool) -> (r: Option<u64>)
    ensures
        r == unsigned_text(s@, hex),
{
    let cs = crate::text::chars_of(s);
    let from: usize = if cs.len() > 0 && cs[0] == '+' { 1 } else { 0 };
    proof {
        if cs@.len() > 0 && cs@[0] == '+' {
            assert(cs@.skip(1) =~= s@.drop_first());
        } else {
            assert(cs@.skip(0) =~= s@);
        }
    }
    read_digits(&cs, from, hex)
}

/// `s.parse::<i64>()`.
pub fn parse_i64(s: &str) -> (r: Option<i64>)
    ensures
        r == i64_text(s@),
{
    let cs = crate::text::chars_of(s);
    let neg = cs.len() > 0 && cs[0] == '-';
    let from: usize = if cs.len() > 0 && (cs[0] == '+' || cs[0] == '-') { 1 } else { 0 };
    proof {
        if from == 1 {
            assert(cs@.skip(1) =~= s@.drop_first());
        } else {
            assert(cs@.skip(0) =~= s@);
        }
    }
    match read_digits(&cs, from, false) {
        None => {
            proof {
                let d = cs@.skip(from as int);
                if d.len() > 0 && all_digits_in(d, false) {
                    assert(digits_value(d, false) > u64::MAX);
                }
            }
            None
        },
        Some(m) => {
            proof {
                let d = cs@.skip(from as int);
                lemma_digits_value_prefix(d, d.len() as int, false);
                assert(d.take(d.len() as int) =~= d);
                assert(m == digits_value(d, false));
                assert(neg == (s@.len() > 0 && s@[0] == '-'));
            }
            if neg {
                if m <= 9223372036854775808u64 {
                    if m == 9223372036854775808u64 {
                        Some(i64::MIN)
                    } else {
                        Some(-(m as i64))
                    }
                } else {
                    None
                }
            } else {
                if m <= 9223372036854775807u64 {
                    Some(m as i64)
                } else {
                    None
                }
            }
        },
    }
}

/// The text after every leading `0x` (`str::trim_start_matches("0x")`).
pub fn strip_hex_prefixes(s: &str) -> (r: String)
    ensures
        r@ == without_hex_prefixes(s@),
{
    let cs = crate::text::chars_of(s);
    let mut i: usize = 0;
    proof {
        assert(s@.skip(0) =~= s@);
    }
    while i + 1 < cs.len() && cs[i] == '0' && cs[i + 1] == 'x'
        invariant
            i <= cs@.len(),
            i % 2 == 0,
            cs@ == s@,
            without_hex_prefixes(s@) == without_hex_prefixes(s@.skip(i as int)),
        decreases cs@.len() - i,
    {
        proof {
            assert(s@.skip(i as int).skip(2) =~= s@.skip(i + 2));
        }
        i = i + 2;
    }
    proof {
        let rest = s@.skip(i as int);
        if rest.len() >= 2 {
            assert(rest[0] == cs@[i as int]);
            assert(rest[1] == cs@[i + 1]);
        }
    }
    crate::text::string_from_range(&cs, i, cs.len())
}

// ── floating-point text ─────────────────────────────────────────────────

/// The end of the run of decimal digits starting at `p`.
pub open spec fn digit_run_end(s: Seq<char>, p: int) -> int
    decreases s.len() - p,
{
    if 0 <= p < s.len() && is_digit(s[p]) {
        digit_run_end(s, p + 1)
    } else {
        p
    }
}

/// Whether `s` spells a word in any case: each character is the word's
/// letter in lower or in upper case.
pub open spec fn spells(s: Seq<char>, lower: Seq<char>, upper: Seq<char>) -> bool {
    s.len() == lower.len() && forall|i: int| 0 <= i < s.len() ==> #[trigger] s[i] == lower[i] || s[i] == upper[i]
}

/// An exponent: `e` or `E`, an optional sign, one or more digits, and
/// nothing after.
pub open spec fn exponent_text(s: Seq<char>) -> bool {
    let k = if s.len() > 1 && (s[1] == '+' || s[1] == '-') { 2int } else { 1int };
    &&& s.len() > 0 && (s[0] == 'e' || s[0] == 'E')
    &&& s.len() > k
    &&& digit_run_end(s, k) == s.len()
}

/// A decimal number: digits with an optional fraction after `.`, at
/// least one digit in all, then an optional exponent.
pub open spec fn number_text(s: Seq<char>) -> bool {
    let i = digit_run_end(s, 0);
    let has_dot = i < s.len() && s[i] == '.';
    let j = if has_dot { digit_run_end(s, i + 1) } else { i };
    let digits = if has_dot { i + (j - i - 1) } else { i };
    &&& digits > 0
    &&& (j == s.len() || exponent_text(s.skip(j)))
}

/// Whether `str::parse::<f64>` accepts the text: an optional sign, then
/// `inf`, `infinity` or `nan` in any case, or a decimal number.
pub open spec fn float_text(s: Seq<char>) -> bool {
    let b = if s.len() > 0 && (s[0] == '+' || s[0] == '-') { s.drop_first() } else { s };
    ||| spells(b, "inf"@, "INF"@)
    ||| spells(b, "infinity"@, "INFINITY"@)
    ||| spells(b, "nan"@, "NAN"@)
    ||| number_text(b)
}

fn digit_run(cs: &Vec<char>, p: usize) -> (r: usize)
    requires
        p <= cs@.len(),
    ensures
        r == digit_run_end(cs@, p as int),
        p <= r <= cs@.len(),
{
    let mut i = p;
    while i < cs.len() && '0' <= cs[i] && cs[i] <= '9'
        invariant
            p <= i <= cs@.len(),
            digit_run_end(cs@, p as int) == digit_run_end(cs@, i as int),
        decreases cs@.len() - i,
    {
        i = i + 1;
    }
    i
}

fn spells_word(cs: &Vec<char>, from: usize, lower: &str, upper: &str) -> (r: bool)
    requires
        from <= cs@.len(),
        lower@.len() == upper@.len(),
    ensures
        r == spells(cs@.skip(from as int), lower@, upper@),
{
    let lo = crate::text::chars_of(lower);
    let up = crate::text::chars_of(upper);
    let ghost b = cs@.skip(from as int);
    let len = cs.len();
    let n = len - from;
    if n != lo.len() {
        return false;
    }
    let mut i: usize = 0;
    while i < n
        invariant
            i <= n,
            n == lo@.len(),
            n == up@.len(),
            n + from == len,
            len == cs@.len(),
            lo@ == lower@,
            up@ == upper@,
            b == cs@.skip(from as int),
            forall|j: int| 0 <= j < i ==> #[trigger] b[j] == lower@[j] || b[j] == upper@[j],
        decreases n - i,
    {
        let c = cs[from + i];
        proof {
            assert(b[i as int] == c);
        }
        if c != lo[i] && c != up[i] {
            return false;
        }
        i = i + 1;
    }
    true
}

/// Whether `cs[j..]` is an exponent.
fn exponent_at(cs: &Vec<char>, j: usize) -> (r: bool)
    requires
        j < cs@.len(),
    ensures
        r == exponent_text(cs@.skip(j as int)),
{
    let ghost e = cs@.skip(j as int);
    proof {
        assert(e[0] == cs@[j as int]);
        if e.len() > 1 {
            assert(e[1] == cs@[j + 1]);
        }
    }
    if !(cs[j] == 'e' || cs[j] == 'E') {
        return false;
    }
    let len = cs.len();
    let k: usize = if j + 1 < len && (cs[j + 1] == '+' || cs[j + 1] == '-') { j + 2 } else { j + 1 };
    if k >= cs.len() {
        return false;
    }
    let end = digit_run(&cs, k);
    proof {
        lemma_digit_run_shift(cs@, j as int, k - j);
    }
    end == cs.len()
}

/// Whether `cs[from..]` is a decimal number.
fn number_at(cs: &Vec<char>, from: usize) -> (r: bool)
    requires
        from <= cs@.len(),
    ensures
        r == number_text(cs@.skip(from as int)),
{
    let ghost b = cs@.skip(from as int);
    let i = digit_run(&cs, from);
    let has_dot = i < cs.len() && cs[i] == '.';
    let j = if has_dot { digit_run(&cs, i + 1) } else { i };
    proof {
        lemma_digit_run_shift(cs@, from as int, 0);
        if i < cs@.len() {
            assert(b[i - from] == cs@[i as int]);
        }
        if has_dot {
            lemma_digit_run_shift(cs@, from as int, i - from + 1);
        }
    }
    let digits = if has_dot { j - 1 - from } else { i - from };
    if digits == 0 {
        return false;
    }
    if j == cs.len() {
        return true;
    }
    proof {
        assert(b.skip(j - from) =~= cs@.skip(j as int));
    }
    exponent_at(cs, j)
}

/// Whether `s.parse::<f64>()` succeeds.
pub fn is_float_text(s: &str) -> (r: bool)
    ensures
        r == float_text(s@),
{
    let cs = crate::text::chars_of(s);
    let from: usize = if cs.len() > 0 && (cs[0] == '+' || cs[0] == '-') { 1 } else { 0 };
    proof {
        if from == 1 {
            assert(cs@.skip(1) =~= s@.drop_first());
        } else {
            assert(cs@.skip(0) =~= s@);
        }
        reveal_strlit("inf");
        reveal_strlit("INF");
        reveal_strlit("infinity");
        reveal_strlit("INFINITY");
        reveal_strlit("nan");
        reveal_strlit("NAN");
    }
    spells_word(&cs, from, "inf", "INF") || spells_word(&cs, from, "infinity", "INFINITY")
        || spells_word(&cs, from, "nan", "NAN") || number_at(&cs, from)
}

proof fn lemma_digit_run_shift(s: Seq<char>, from: int, p: int)
    requires
        0 <= from <= s.len(),
        0 <= p <= s.len() - from,
    ensures
        digit_run_end(s.skip(from), p) == digit_run_end(s, from + p) - from,
    decreases s.len() - from - p,
{
    if p < s.len() - from {
        assert(s.skip(from)[p] == s[from + p]);
        lemma_digit_run_shift(s, from, p + 1);
    }
}

// ── reading back what is written ────────────────────────────────────────

proof fn lemma_digit_char_value(d: nat)
    requires
        d < 10,
    ensures
        digit_in(crate::text::digit_char(d), false) == Some(d as int),
        digit_in(crate::text::digit_char(d), true) == Some(d as int),
{
}

proof fn lemma_hex_digit_value(d: nat)
    requires
        d < 16,
    ensures
        digit_in(crate::codegen::rust::hex_digit(d), true) == Some(d as int),
{
    if d < 10 {
        lemma_digit_char_value(d);
    }
}

proof fn lemma_decimal_digits(n: nat)
    ensures
        decimal(n).len() > 0,
        all_digits_in(decimal(n), false),
        digits_value(decimal(n), false) == n,
        is_digit(decimal(n)[0]),
    decreases n,
{
    let s = decimal(n);
    if n < 10 {
        lemma_digit_char_value(n);
        assert(s.drop_last() =~= Seq::<char>::empty());
        assert(s.last() == crate::text::digit_char(n));
        assert(digits_value(s.drop_last(), false) == 0);
    } else {
        lemma_decimal_digits(n / 10);
        lemma_digit_char_value(n % 10);
        assert(s.drop_last() =~= decimal(n / 10));
        assert(s.last() == crate::text::digit_char(n % 10));
        assert(n == (n / 10) * 10 + n % 10) by (nonlinear_arith);
        assert(s[0] == decimal(n / 10)[0]);
        assert forall|i: int| 0 <= i < s.len() implies (#[trigger] digit_in(s[i], false)) is Some by {
            if i < s.len() - 1 {
                assert(s[i] == decimal(n / 10)[i]);
            }
        }
    }
}

proof fn lemma_upper_hex_digits(n: nat)
    ensures
        crate::codegen::rust::upper_hex(n).len() > 0,
        all_digits_in(crate::codegen::rust::upper_hex(n), true),
        digits_value(crate::codegen::rust::upper_hex(n), true) == n,
        crate::codegen::rust::upper_hex(n)[0] != 'x',
    decreases n,
{
    let s = crate::codegen::rust::upper_hex(n);
    if n < 16 {
        lemma_hex_digit_value(n);
        assert(s.drop_last() =~= Seq::<char>::empty());
        assert(s.last() == crate::codegen::rust::hex_digit(n));
        assert(digits_value(s.drop_last(), true) == 0);
    } else {
        lemma_upper_hex_digits(n / 16);
        lemma_hex_digit_value(n % 16);
        assert(s.drop_last() =~= crate::codegen::rust::upper_hex(n / 16));
        assert(s.last() == crate::codegen::rust::hex_digit(n % 16));
        assert(n == (n / 16) * 16 + n % 16) by (nonlinear_arith);
        assert(s[0] == crate::codegen::rust::upper_hex(n / 16)[0]);
        assert forall|i: int| 0 <= i < s.len() implies (#[trigger] digit_in(s[i], true)) is Some by {
            if i < s.len() - 1 {
                assert(s[i] == crate::codegen::rust::upper_hex(n / 16)[i]);
            }
        }
    }
}

/// An integer literal reads back as the number whose decimal text it is:
/// what the code generator writes for an `Int` parses to that `Int`.
pub proof fn lemma_int_text_round_trip(n: i64)
    ensures
        i64_text(signed_decimal(n as int)) == Some(n),
{
    if n < 0 {
        let m = (-(n as int)) as nat;
        lemma_decimal_digits(m);
        let s = signed_decimal(n as int);
        assert(s.drop_first() =~= decimal(m));
    } else {
        lemma_decimal_digits(n as nat);
    }
}

/// A count reads back as the number whose decimal text it is.
pub proof fn lemma_count_text_round_trip(n: u64)
    ensures
        unsigned_text(decimal(n as nat), false) == Some(n),
{
    lemma_decimal_digits(n as nat);
}

/// A hexadecimal literal as the code generator writes its digits (`0x`
/// and upper-case digits) reads back as the number.
pub proof fn lemma_hex_text_round_trip(n: u64)
    ensures
        unsigned_text(without_hex_prefixes("0x"@ + crate::codegen::rust::upper_hex(n as nat)), true) == Some(n),
{
    reveal_strlit("0x");
    let h = crate::codegen::rust::upper_hex(n as nat);
    lemma_upper_hex_digits(n as nat);
    let s = "0x"@ + h;
    assert(s.skip(2) =~= h);
    if h.len() >= 2 {
        assert(!(h[0] == '0' && h[1] == 'x')) by {
            assert(digit_in(h[1], true) is Some);
        }
    }
    assert(without_hex_prefixes(s) == without_hex_prefixes(h));
    assert(without_hex_prefixes(h) == h);
    assert(digit_in(h[0], true) is Some);
    assert(h[0] != '+');
}

} // verus!
