use vstd::prelude::*;
use vstd::string::StrSliceExecFns;
use vstd::string::StringExecFnsIsAscii;

verus! {

broadcast use vstd::string::group_string_axioms;

// ------------------------------------------------------------------
// Powers of ten
// ------------------------------------------------------------------

pub open spec fn pow10(e: nat) -> nat
    decreases e,
{
    if e == 0 {
        1
    } else {
        10 * pow10((e - 1) as nat)
    }
}

pub proof fn lemma_pow10_pos(e: nat)
    ensures
        pow10(e) >= 1,
    decreases e,
{
    if e > 0 {
        lemma_pow10_pos((e - 1) as nat);
    }
}

pub proof fn lemma_pow10_add(a: nat, b: nat)
    ensures
        pow10(a + b) == pow10(a) * pow10(b),
    decreases a,
{
    if a == 0 {
        assert(pow10(0) == 1);
        assert(a + b == b);
        assert(pow10(a + b) == 1 * pow10(b)) by (nonlinear_arith)
            requires pow10(a + b) == pow10(b),
        ;
    } else {
        let x = pow10((a - 1) as nat);
        let y = pow10(b);
        lemma_pow10_add((a - 1) as nat, b);
        assert(pow10((a - 1) as nat + b) == x * y);
        assert((a + b - 1) as nat == (a - 1) as nat + b);
        assert(pow10(a + b) == 10 * (x * y));
        assert(10 * (x * y) == (10 * x) * y) by (nonlinear_arith);
        assert(pow10(a) == 10 * x);
    }
}

pub proof fn lemma_pow10_mono(a: nat, b: nat)
    requires
        a <= b,
    ensures
        pow10(a) <= pow10(b),
    decreases b,
{
    if a < b {
        lemma_pow10_mono(a, (b - 1) as nat);
        lemma_pow10_pos((b - 1) as nat);
    }
}

/// Computes a power of ten exactly, for the exponents the formatter needs.
#[verifier::rlimit(80)]
pub fn pow10_u128(e: u32) -> (r: u128)
    requires
        e <= 24,
    ensures
        r == pow10(e as nat),
{
    let mut r: u128 = 1;
    let mut i: u32 = 0;
    while i < e
        invariant
            i <= e <= 24,
            r == pow10(i as nat),
        decreases e - i,
    {
        proof {
            lemma_pow10_mono(i as nat, 23);
            reveal_with_fuel(pow10, 25);
            assert(pow10(23) == 100000000000000000000000);
        }
        r = r * 10;
        i = i + 1;
    }
    r
}

// ------------------------------------------------------------------
// Decimal digit strings
// ------------------------------------------------------------------

pub open spec fn spec_is_digit(c: char) -> bool {
    ('0' as int) <= (c as int) && (c as int) <= ('9' as int)
}

pub open spec fn spec_digit_val(c: char) -> nat {
    ((c as int) - ('0' as int)) as nat
}

pub open spec fn spec_digit_char(d: nat) -> char {
    if d == 0 {
        '0'
    } else if d == 1 {
        '1'
    } else if d == 2 {
        '2'
    } else if d == 3 {
        '3'
    } else if d == 4 {
        '4'
    } else if d == 5 {
        '5'
    } else if d == 6 {
        '6'
    } else if d == 7 {
        '7'
    } else if d == 8 {
        '8'
    } else {
        '9'
    }
}

proof fn lemma_digit_char_val(d: nat)
    requires
        d < 10,
    ensures
        spec_is_digit(spec_digit_char(d)),
        spec_digit_val(spec_digit_char(d)) == d,
{
}

/// The decimal digits of `n`, most significant first, with no leading zero
/// except for `n == 0` itself.
pub open spec fn dec_digits(n: nat) -> Seq<char>
    decreases n,
{
    if n < 10 {
        seq![spec_digit_char(n)]
    } else {
        dec_digits(n / 10).push(spec_digit_char(n % 10))
    }
}

/// Exactly `w` decimal digits of `n mod 10^w`, zero padded on the left.
pub open spec fn fixed_digits(n: nat, w: nat) -> Seq<char>
    decreases w,
{
    if w == 0 {
        Seq::<char>::empty()
    } else {
        fixed_digits(n / 10, (w - 1) as nat).push(spec_digit_char(n % 10))
    }
}

pub open spec fn all_digits(s: Seq<char>) -> bool {
    forall|i: int| 0 <= i < s.len() ==> spec_is_digit(#[trigger] s[i])
}

/// The numeric value of a string of decimal digits, most significant first.
pub open spec fn digits_val(s: Seq<char>) -> nat
    decreases s.len(),
{
    if s.len() == 0 {
        0
    } else {
        digits_val(s.drop_last()) * 10 + spec_digit_val(s.last())
    }
}

pub proof fn lemma_dec_digits_are_digits(n: nat)
    ensures
        dec_digits(n).len() >= 1,
        all_digits(dec_digits(n)),
    decreases n,
{
    if n >= 10 {
        lemma_dec_digits_are_digits(n / 10);
        assert forall|i: int| 0 <= i < dec_digits(n).len() implies spec_is_digit(
            #[trigger] dec_digits(n)[i],
        ) by {
            if i < dec_digits(n).len() - 1 {
                assert(dec_digits(n)[i] == dec_digits(n / 10)[i]);
            } else {
                lemma_digit_char_val(n % 10);
            }
        }
    } else {
        lemma_digit_char_val(n);
    }
}

pub proof fn lemma_fixed_digits_are_digits(n: nat, w: nat)
    ensures
        fixed_digits(n, w).len() == w,
        all_digits(fixed_digits(n, w)),
    decreases w,
{
    if w > 0 {
        lemma_fixed_digits_are_digits(n / 10, (w - 1) as nat);
        assert forall|i: int| 0 <= i < fixed_digits(n, w).len() implies spec_is_digit(
            #[trigger] fixed_digits(n, w)[i],
        ) by {
            if i < fixed_digits(n, w).len() - 1 {
                assert(fixed_digits(n, w)[i] == fixed_digits(n / 10, (w - 1) as nat)[i]);
            } else {
                lemma_digit_char_val(n % 10);
            }
        }
    }
}

pub proof fn lemma_digits_val_append(a: Seq<char>, b: Seq<char>)
    ensures
        digits_val(a + b) == digits_val(a) * pow10(b.len()) + digits_val(b),
    decreases b.len(),
{
    if b.len() == 0 {
        assert(a + b =~= a);
        assert(pow10(b.len()) == 1);
        assert(digits_val(b) == 0);
        assert(digits_val(a) * 1 == digits_val(a)) by (nonlinear_arith);
    } else {
        let c = b.drop_last();
        let p = pow10((b.len() - 1) as nat);
        let va = digits_val(a);
        let vc = digits_val(c);
        let last = spec_digit_val(b.last());
        lemma_digits_val_append(a, c);
        assert(digits_val(a + c) == va * p + vc);
        assert((a + b).drop_last() =~= a + c);
        assert((a + b).last() == b.last());
        assert(digits_val(a + b) == digits_val(a + c) * 10 + last);
        assert((va * p + vc) * 10 + last == va * (10 * p) + (vc * 10 + last)) by (nonlinear_arith);
        assert(pow10(b.len()) == 10 * p);
        assert(digits_val(b) == vc * 10 + last);
    }
}

pub proof fn lemma_digits_val_dec_digits(n: nat)
    ensures
        digits_val(dec_digits(n)) == n,
    decreases n,
{
    if n < 10 {
        lemma_digit_char_val(n);
        let s = dec_digits(n);
        assert(s.drop_last() =~= Seq::<char>::empty());
        assert(s.last() == spec_digit_char(n));
        assert(digits_val(s) == digits_val(Seq::<char>::empty()) * 10 + spec_digit_val(
            s.last(),
        ));
    } else {
        lemma_digits_val_dec_digits(n / 10);
        lemma_digit_char_val(n % 10);
        let s = dec_digits(n);
        assert(s == dec_digits(n / 10).push(spec_digit_char(n % 10)));
        assert(s.drop_last() =~= dec_digits(n / 10));
        assert(s.last() == spec_digit_char(n % 10));
        assert(digits_val(s) == digits_val(s.drop_last()) * 10 + spec_digit_val(s.last()));
        assert(digits_val(s) == (n / 10) * 10 + n % 10);
        assert((n / 10) * 10 + n % 10 == n) by (nonlinear_arith);
    }
}

pub proof fn lemma_digits_val_fixed(n: nat, w: nat)
    ensures
        digits_val(fixed_digits(n, w)) == n % pow10(w),
    decreases w,
{
    lemma_pow10_pos(w);
    if w == 0 {
        assert(n % 1 == 0) by (nonlinear_arith);
    } else {
        lemma_digits_val_fixed(n / 10, (w - 1) as nat);
        lemma_digit_char_val(n % 10);
        assert(fixed_digits(n, w).drop_last() =~= fixed_digits(n / 10, (w - 1) as nat));
        let p = pow10((w - 1) as nat);
        lemma_pow10_pos((w - 1) as nat);
        let q = n / 10;
        let r = n % 10;
        let m = q % p;
        let k = q / p;
        assert(q == p * k + m && m < p) by (nonlinear_arith)
            requires p >= 1 && q >= 0 && m == q % p && k == q / p,
        ;
        assert(n == 10 * q + r && r < 10) by (nonlinear_arith)
            requires n >= 0 && q == n / 10 && r == n % 10,
        ;
        assert(n == (10 * p) * k + (10 * m + r)) by (nonlinear_arith)
            requires n == 10 * q + r && q == p * k + m,
        ;
        assert(10 * m + r < 10 * p) by (nonlinear_arith)
            requires m < p && r < 10,
        ;
        assert(n % (10 * p) == 10 * m + r) by (nonlinear_arith)
            requires
                n == (10 * p) * k + (10 * m + r),
                0 <= 10 * m + r < 10 * p,
                k >= 0,
        ;
        assert(pow10(w) == 10 * p);
        assert(digits_val(fixed_digits(n, w)) == m * 10 + r);
    }
}

/// A single decimal digit as text.
fn digit_str(d: u64) -> (r: &'static str)
    requires
        d < 10,
    ensures
        r@ =~= seq![spec_digit_char(d as nat)],
{
    proof {
        reveal_strlit("0");
        reveal_strlit("1");
        reveal_strlit("2");
        reveal_strlit("3");
        reveal_strlit("4");
        reveal_strlit("5");
        reveal_strlit("6");
        reveal_strlit("7");
        reveal_strlit("8");
        reveal_strlit("9");
    }
    if d == 0 {
        "0"
    } else if d == 1 {
        "1"
    } else if d == 2 {
        "2"
    } else if d == 3 {
        "3"
    } else if d == 4 {
        "4"
    } else if d == 5 {
        "5"
    } else if d == 6 {
        "6"
    } else if d == 7 {
        "7"
    } else if d == 8 {
        "8"
    } else {
        "9"
    }
}

/// All decimal digits of `n`, most significant first.
fn u128_digits(n: u128) -> (r: String)
    ensures
        r@ == dec_digits(n as nat),
    decreases n,
{
    if n < 10 {
        let r = String::from_str(digit_str(n as u64));
        assert(r@ =~= dec_digits(n as nat));
        r
    } else {
        let mut r = u128_digits(n / 10);
        r.append(digit_str((n % 10) as u64));
        assert(r@ =~= dec_digits(n as nat));
        r
    }
}

// ------------------------------------------------------------------
// The Decimal type
// ------------------------------------------------------------------

/// An exact decimal number: the value `mantissa / 10^scale`, negated when
/// `neg` is set. The upstream service sends coordinates and temperatures as
/// decimal text; this type holds that text's value without rounding.
#[derive(Clone, Copy, Debug, PartialEq, Eq, Structural)]
pub struct Decimal {
    pub neg: bool,
    pub mantissa: u64,
    pub scale: u32,
}

/// The numerator of the value, with its sign.
pub open spec fn signed_val(d: Decimal) -> int {
    if d.neg {
        -(d.mantissa as int)
    } else {
        d.mantissa as int
    }
}

/// Two decimals denote the same number: `a.m / 10^a.s == b.m / 10^b.s`,
/// cross multiplied so it stays within the integers.
pub open spec fn same_value(a: Decimal, b: Decimal) -> bool {
    signed_val(a) * pow10(b.scale as nat) == signed_val(b) * pow10(a.scale as nat)
}

/// Index of the first `.` in `s` at or after `i`, or `s.len()` if none.
pub open spec fn find_dot_from(s: Seq<char>, i: int) -> int
    decreases s.len() - i,
{
    if i < 0 || i >= s.len() {
        s.len() as int
    } else if s[i] == '.' {
        i
    } else {
        find_dot_from(s, i + 1)
    }
}

proof fn lemma_find_dot_from(s: Seq<char>, o: int, d: int)
    requires
        0 <= o <= d <= s.len(),
        forall|k: int| o <= k < d ==> s[k] != '.',
        d < s.len() ==> s[d] == '.',
    ensures
        find_dot_from(s, o) == d,
    decreases d - o,
{
    if o < d {
        lemma_find_dot_from(s, o + 1, d);
    }
}

/// What parsing decimal text means: an optional leading minus sign, one or
/// more digits, then optionally a dot and one or more digits — provided the
/// digits' value stays below `10^18` and there are at most 18 fraction
/// digits. Anything else (empty text, stray characters, exponent notation,
/// an oversized value) parses to `None`.
pub open spec fn spec_parse(s: Seq<char>) -> Option<Decimal> {
    let neg = s.len() > 0 && s[0] == '-';
    let o: int = if neg {
        1
    } else {
        0
    };
    let d = find_dot_from(s, o);
    let ip = s.subrange(o, d);
    let has_dot = d < s.len();
    let fp = if has_dot {
        s.subrange(d + 1, s.len() as int)
    } else {
        Seq::<char>::empty()
    };
    if ip.len() > 0 && all_digits(ip) && (has_dot ==> fp.len() > 0) && all_digits(fp)
        && digits_val(ip + fp) < pow10(18) && fp.len() <= 18 {
        Some(
            Decimal {
                neg,
                mantissa: digits_val(ip + fp) as u64,
                scale: fp.len() as u32,
            },
        )
    } else {
        None
    }
}

impl Decimal {
    /// Scales up to 18 keep all arithmetic on this type inside `u64`/`u128`.
    pub open spec fn wf(self) -> bool {
        self.scale <= 18
    }

    /// How many zero digits the formatter appends so at least six fraction
    /// digits are written.
    pub open spec fn spec_pad(self) -> nat {
        if self.scale < 6 {
            (6 - self.scale) as nat
        } else {
            0
        }
    }

    /// The number of fraction digits the formatter writes: at least six.
    pub open spec fn out_scale(self) -> nat {
        self.scale as nat + self.spec_pad()
    }

    /// The mantissa after padding to `out_scale` fraction digits.
    pub open spec fn padded_mantissa(self) -> nat {
        self.mantissa as nat * pow10(self.spec_pad())
    }

    /// What formatting means: an optional minus sign, the whole part's
    /// digits, a dot, and exactly `out_scale` fraction digits.
    pub open spec fn spec_format(self) -> Seq<char> {
        let sign: Seq<char> = if self.neg {
            seq!['-']
        } else {
            Seq::<char>::empty()
        };
        let m = self.padded_mantissa();
        let p = pow10(self.out_scale());
        sign + dec_digits(m / p) + seq!['.'] + fixed_digits(m % p, self.out_scale())
    }
}

/// Exactly `w` decimal digits of `n mod 10^w`, zero padded on the left.
fn fixed_digits_str(n: u128, w: u32) -> (r: String)
    ensures
        r@ == fixed_digits(n as nat, w as nat),
    decreases w,
{
    if w == 0 {
        let r = String::new();
        assert(r@ =~= fixed_digits(n as nat, 0));
        r
    } else {
        let mut r = fixed_digits_str(n / 10, w - 1);
        r.append(digit_str((n % 10) as u64));
        assert(r@ =~= fixed_digits(n as nat, w as nat));
        r
    }
}

/// All decimal digits of `n`, most significant first.
pub fn u64_to_string(n: u64) -> (r: String)
    ensures
        r@ == dec_digits(n as nat),
{
    u128_digits(n as u128)
}

impl Decimal {
    /// Serializes the value as locale-independent decimal text with a dot
    /// separator and at least six fraction digits, losing no precision.
    pub fn to_query_string(&self) -> (r: String)
        requires
            self.wf(),
        ensures
            r@ == self.spec_format(),
    {
        let pad: u32 = if self.scale < 6 {
            6 - self.scale
        } else {
            0
        };
        let s6: u32 = self.scale + pad;
        proof {
            lemma_pow10_mono(pad as nat, 6);
            reveal_with_fuel(pow10, 8);
            assert(pow10(6) == 1000000);
            assert((self.mantissa as nat) * pow10(pad as nat) <= (u64::MAX as nat) * 1000000)
                by (nonlinear_arith)
                requires
                    self.mantissa <= u64::MAX,
                    pow10(pad as nat) <= 1000000,
            ;
        }
        let m: u128 = (self.mantissa as u128) * pow10_u128(pad);
        proof {
            lemma_pow10_pos(s6 as nat);
        }
        let p: u128 = pow10_u128(s6);
        let whole: u128 = m / p;
        let frac: u128 = m % p;
        let mut out = String::new();
        if self.neg {
            out.append("-");
        }
        let ws = u128_digits(whole);
        out.append(ws.as_str());
        out.append(".");
        let fs = fixed_digits_str(frac, s6);
        out.append(fs.as_str());
        proof {
            reveal_strlit("-");
            reveal_strlit(".");
            assert(m as nat == self.padded_mantissa());
            assert(s6 as nat == self.out_scale());
            assert(out@ =~= self.spec_format());
        }
        out
    }

    /// Parses decimal text, exactly as `spec_parse` describes.
    #[verifier::rlimit(60)]
    #[verifier::loop_isolation(false)]
    pub fn parse(s: &str) -> (r: Option<Decimal>)
        ensures
            r == spec_parse(s@),
            r matches Some(d) ==> d.wf() && (d.mantissa as nat) < pow10(18),
    {
        let n = s.unicode_len();
        let neg = n > 0 && s.get_char(0) == '-';
        let o: usize = if neg {
            1
        } else {
            0
        };
        // find the first dot at or after o
        let mut dot: usize = o;
        while dot < n && s.get_char(dot) != '.'
            invariant
                o <= dot <= n,
                n == s@.len(),
                forall|k: int| o <= k < dot ==> s@[k] != '.',
            decreases n - dot,
        {
            dot = dot + 1;
        }
        proof {
            lemma_find_dot_from(s@, o as int, dot as int);
        }
        let ghost ip = s@.subrange(o as int, dot as int);
        let ghost fp = if dot < n {
            s@.subrange(dot as int + 1, n as int)
        } else {
            Seq::<char>::empty()
        };
        if dot == o {
            return None;
        }
        if dot < n && n - dot - 1 == 0 {
            return None;
        }
        if dot < n && n - dot - 1 > 18 {
            return None;
        }
        let p18: u128 = pow10_u128(18);
        proof {
            lemma_pow10_pos(18);
            reveal_with_fuel(pow10, 20);
            assert(pow10(18) == 1000000000000000000);
        }
        let mut acc: u64 = 0;
        let mut i: usize = o;
        while i < dot
            invariant
                o <= i <= dot <= n,
                n == s@.len(),
                ip == s@.subrange(o as int, dot as int),
                all_digits(ip.take(i - o)),
                acc as nat == digits_val(ip.take(i - o)),
                (acc as nat) < pow10(18),
                p18 == pow10(18),
            decreases dot - i,
        {
            let c = s.get_char(i);
            let u = c as u32;
            if u < 48 || u > 57 {
                proof {
                    assert(ip[i - o] == s@[i as int]);
                    assert(!spec_is_digit(ip[i - o]));
                    assert(!all_digits(ip));
                }
                return None;
            }
            let t: u128 = (acc as u128) * 10 + ((u - 48) as u128);
            proof {
                let pre = ip.take(i - o);
                let pre1 = ip.take(i + 1 - o);
                assert(pre1.drop_last() =~= pre);
                assert(pre1.last() == s@[i as int]);
                assert(spec_digit_val(s@[i as int]) == (u - 48) as nat);
                assert(t as nat == digits_val(pre1));
            }
            if t >= p18 {
                proof {
                    lemma_digits_val_prefix_bound(ip + fp, i + 1 - o);
                    assert((ip + fp).take(i + 1 - o) =~= ip.take(i + 1 - o));
                }
                return None;
            }
            acc = t as u64;
            i = i + 1;
        }
        proof {
            assert(ip.take(dot - o) =~= ip);
        }
        if dot == n {
            proof {
                assert(ip + fp =~= ip);
            }
            return Some(Decimal { neg, mantissa: acc, scale: 0 });
        }
        let frac_len = n - dot - 1;
        let mut j: usize = 0;
        while j < frac_len
            invariant
                0 <= j <= frac_len,
                o < dot < n,
                frac_len == n - dot - 1,
                n == s@.len(),
                ip == s@.subrange(o as int, dot as int),
                fp == s@.subrange(dot as int + 1, n as int),
                all_digits(ip),
                all_digits(fp.take(j as int)),
                acc as nat == digits_val(ip + fp.take(j as int)),
                (acc as nat) < pow10(18),
                p18 == pow10(18),
            decreases frac_len - j,
        {
            let c = s.get_char(dot + 1 + j);
            let u = c as u32;
            if u < 48 || u > 57 {
                proof {
                    assert(fp[j as int] == s@[dot + 1 + j]);
                    assert(!spec_is_digit(fp[j as int]));
                    assert(!all_digits(fp));
                }
                return None;
            }
            let t: u128 = (acc as u128) * 10 + ((u - 48) as u128);
            proof {
                let pre = ip + fp.take(j as int);
                let pre1 = ip + fp.take(j + 1 as int);
                assert(pre1.drop_last() =~= pre);
                assert(pre1.last() == s@[dot + 1 + j]);
                assert(spec_digit_val(s@[dot + 1 + j]) == (u - 48) as nat);
                assert(t as nat == digits_val(pre1));
            }
            if t >= p18 {
                proof {
                    lemma_digits_val_prefix_bound(ip + fp, ip.len() as int + j + 1);
                    assert((ip + fp).take(ip.len() as int + j + 1) =~= ip + fp.take(j + 1 as int));
                }
                return None;
            }
            acc = t as u64;
            j = j + 1;
        }
        proof {
            assert(fp.take(frac_len as int) =~= fp);
        }
        Some(Decimal { neg, mantissa: acc, scale: frac_len as u32 })
    }
}

/// The value of a digit string is at least the value of any of its prefixes.
proof fn lemma_digits_val_prefix_bound(s: Seq<char>, k: int)
    requires
        0 <= k <= s.len(),
    ensures
        digits_val(s) >= digits_val(s.take(k)),
{
    let pre = s.take(k);
    let suf = s.skip(k);
    assert(s =~= pre + suf);
    lemma_digits_val_append(pre, suf);
    lemma_pow10_pos(suf.len());
    assert(digits_val(pre) * pow10(suf.len()) >= digits_val(pre)) by (nonlinear_arith)
        requires
            pow10(suf.len()) >= 1,
            digits_val(pre) >= 0,
    ;
}

/// Law: formatting a well-formed decimal writes at least six fraction
/// digits, and parsing the formatted text back yields the same numeric
/// value. The bound on the padded mantissa keeps the reparse within the
/// parser's 18-significant-digit range.
pub proof fn lemma_format_parse_round_trip(d: Decimal)
    requires
        d.wf(),
        d.padded_mantissa() < pow10(18),
    ensures
        spec_parse(d.spec_format()) matches Some(e) && same_value(e, d) && e.scale >= 6,
{
    let s = d.spec_format();
    let m = d.padded_mantissa();
    let sc = d.out_scale();
    let p = pow10(sc);
    let w = m / p;
    let f = m % p;
    let wd = dec_digits(w);
    let fd = fixed_digits(f, sc);
    lemma_pow10_pos(sc);
    lemma_dec_digits_are_digits(w);
    lemma_fixed_digits_are_digits(f, sc);
    let o: int = if d.neg {
        1
    } else {
        0
    };
    assert(s.len() == o + wd.len() + 1 + sc);
    if d.neg {
        assert(s[0] == '-');
    } else {
        assert(s[0] == wd[0]);
        assert(spec_is_digit(s[0]));
        assert(s[0] != '-');
    }
    let dotpos = o + wd.len();
    assert forall|k: int| o <= k < dotpos implies s[k] != '.' by {
        assert(s[k] == wd[k - o]);
        assert(spec_is_digit(wd[k - o]));
    }
    assert(s[dotpos] == '.');
    lemma_find_dot_from(s, o, dotpos);
    let ip = s.subrange(o, dotpos);
    let fp = s.subrange(dotpos + 1, s.len() as int);
    assert(ip =~= wd);
    assert(fp =~= fd);
    lemma_digits_val_append(wd, fd);
    lemma_digits_val_dec_digits(w);
    lemma_digits_val_fixed(f, sc);
    assert(f % p == f) by (nonlinear_arith)
        requires
            0 <= f < p,
    ;
    assert(pow10(fd.len()) == p);
    assert(digits_val(wd + fd) == w * p + f);
    assert(w * p + f == m) by (nonlinear_arith)
        requires
            p >= 1,
            m >= 0,
            w == m / p,
            f == m % p,
    ;
    reveal_with_fuel(pow10, 20);
    assert(pow10(18) == 1000000000000000000);
    let e = Decimal { neg: d.neg, mantissa: m as u64, scale: sc as u32 };
    assert(spec_parse(s) == Some(e));
    // the values agree
    lemma_pow10_add(d.spec_pad(), d.scale as nat);
    assert(d.spec_pad() + d.scale as nat == sc);
    let mant = d.mantissa as int;
    let ppad = pow10(d.spec_pad()) as int;
    let psc = pow10(d.scale as nat) as int;
    assert((mant * ppad) * psc == mant * (ppad * psc)) by (nonlinear_arith);
    assert((-(mant * ppad)) * psc == -(mant * (ppad * psc))) by (nonlinear_arith);
    assert((-mant) * (ppad * psc) == -(mant * (ppad * psc))) by (nonlinear_arith);
    assert(sc <= 18);
    assert(e.mantissa as int == m as int);
    assert(e.scale as nat == sc);
    assert(pow10(e.scale as nat) == ppad * psc);
    assert(pow10(d.scale as nat) == psc);
    assert(m as int == mant * ppad);
    if d.neg {
        assert(signed_val(e) == -(mant * ppad));
        assert(signed_val(d) == -mant);
        assert(signed_val(e) * pow10(d.scale as nat) == -(mant * (ppad * psc)));
        assert(signed_val(d) * pow10(e.scale as nat) == -(mant * (ppad * psc)));
    } else {
        assert(signed_val(e) == mant * ppad);
        assert(signed_val(d) == mant);
        assert(signed_val(e) * pow10(d.scale as nat) == mant * (ppad * psc));
        assert(signed_val(d) * pow10(e.scale as nat) == mant * (ppad * psc));
    }
    assert(same_value(e, d));
}

} // verus!
