use vstd::prelude::*;
use vstd::string::StrSliceExecFns;

verus! {

/// A signed decimal number, the coordinate and opacity model of the decoder:
/// the denoted value is `mantissa / 10^scale`, negated when `neg` is set.
/// `"10"` decodes to `{ neg: false, mantissa: 10, scale: 0 }` and `"-2.5"`
/// to `{ neg: true, mantissa: 25, scale: 1 }`.
#[derive(Debug, Clone, Copy, PartialEq, Eq, Structural)]
pub struct Num {
    pub neg: bool,
    pub mantissa: u64,
    pub scale: u64,
}

/// The number zero, the default for absent coordinates and dimensions.
pub open spec fn num_zero() -> Num {
    Num { neg: false, mantissa: 0, scale: 0 }
}

/// The number one, the default opacity.
pub open spec fn num_one() -> Num {
    Num { neg: false, mantissa: 1, scale: 0 }
}

pub open spec fn is_digit(c: char) -> bool {
    48 <= c as u32 <= 57
}

pub open spec fn digit_val(c: char) -> nat {
    ((c as u32) - 48) as nat
}

pub open spec fn all_digits(s: Seq<char>) -> bool {
    forall|i: int| 0 <= i < s.len() ==> is_digit(#[trigger] s[i])
}

/// The value of a digit string read in base ten.
pub open spec fn digits_val(s: Seq<char>) -> nat
    decreases s.len(),
{
    if s.len() == 0 {
        0
    } else {
        10 * digits_val(s.drop_last()) + digit_val(s.last())
    }
}

pub proof fn lemma_digits_val_snoc(s: Seq<char>, c: char)
    ensures
        digits_val(s.push(c)) == 10 * digits_val(s) + digit_val(c),
{
    assert(s.push(c).drop_last() =~= s);
    assert(s.push(c).last() == c);
}

pub proof fn lemma_digits_val_prefix(s: Seq<char>, k: int)
    requires
        0 <= k <= s.len(),
    ensures
        digits_val(s.take(k)) <= digits_val(s),
    decreases s.len(),
{
    if k < s.len() {
        assert(s.take(k) =~= s.drop_last().take(k));
        lemma_digits_val_prefix(s.drop_last(), k);
    } else {
        assert(s.take(k) =~= s);
    }
}

/// The index of the first occurrence of `c0` in `s`, if any.
pub open spec fn pos_of(s: Seq<char>, c0: char) -> Option<int>
    decreases s.len(),
{
    if s.len() == 0 {
        None
    } else if s[0] == c0 {
        Some(0int)
    } else {
        match pos_of(s.drop_first(), c0) {
            None => None,
            Some(p) => Some(p + 1),
        }
    }
}

pub proof fn lemma_pos_of_none(s: Seq<char>, c0: char)
    requires
        forall|i: int| 0 <= i < s.len() ==> s[i] != c0,
    ensures
        pos_of(s, c0) == None::<int>,
    decreases s.len(),
{
    if s.len() > 0 {
        assert(forall|i: int| 0 <= i < s.drop_first().len() ==> s.drop_first()[i] == s[i + 1]);
        lemma_pos_of_none(s.drop_first(), c0);
    }
}

pub proof fn lemma_pos_of_some(s: Seq<char>, c0: char, p: int)
    requires
        0 <= p < s.len(),
        s[p] == c0,
        forall|i: int| 0 <= i < p ==> s[i] != c0,
    ensures
        pos_of(s, c0) == Some(p),
    decreases s.len(),
{
    if p > 0 {
        assert(forall|i: int| 0 <= i < s.drop_first().len() ==> s.drop_first()[i] == s[i + 1]);
        lemma_pos_of_some(s.drop_first(), c0, p - 1);
    }
}

/// The mantissa value and the scale denoted by a number body (no sign):
/// either all digits, or digits with one point between them.
pub open spec fn num_body(s: Seq<char>) -> Option<(nat, nat)> {
    match pos_of(s, '.') {
        None => if s.len() > 0 && all_digits(s) {
            Some((digits_val(s), 0nat))
        } else {
            None
        },
        Some(p) => {
            let ip = s.take(p);
            let fp = s.skip(p + 1);
            if ip.len() + fp.len() > 0 && all_digits(ip) && all_digits(fp) {
                Some((digits_val(ip + fp), fp.len()))
            } else {
                None
            }
        },
    }
}

/// The decimal number denoted by `s`: an optional sign, then digits with at
/// most one point, rejected when the digits do not fit the mantissa.
pub open spec fn num_of(s: Seq<char>) -> Option<Num> {
    if s.len() == 0 {
        None
    } else {
        let neg = s[0] == '-';
        let body = if s[0] == '-' || s[0] == '+' {
            s.drop_first()
        } else {
            s
        };
        match num_body(body) {
            None => None,
            Some((m, k)) => if m <= u64::MAX && k <= u64::MAX {
                Some(Num { neg, mantissa: m as u64, scale: k as u64 })
            } else {
                None
            },
        }
    }
}

/// The unsigned integer denoted by `s`: an optional plus sign, then digits,
/// rejected on overflow.
pub open spec fn u32_of(s: Seq<char>) -> Option<u32> {
    if s.len() == 0 {
        None
    } else {
        let body = if s[0] == '+' {
            s.drop_first()
        } else {
            s
        };
        if body.len() > 0 && all_digits(body) && digits_val(body) <= u32::MAX {
            Some(digits_val(body) as u32)
        } else {
            None
        }
    }
}

/// The signed integer denoted by `s`: an optional sign, then digits, rejected
/// on overflow.
pub open spec fn i32_of(s: Seq<char>) -> Option<i32> {
    if s.len() == 0 {
        None
    } else {
        let neg = s[0] == '-';
        let body = if s[0] == '-' || s[0] == '+' {
            s.drop_first()
        } else {
            s
        };
        if body.len() > 0 && all_digits(body) {
            let v = digits_val(body);
            if neg && v <= 0x8000_0000 {
                Some((-(v as int)) as i32)
            } else if !neg && v <= 0x7fff_ffff {
                Some(v as i32)
            } else {
                None
            }
        } else {
            None
        }
    }
}

pub fn digit_exec(c: char) -> (r: bool)
    ensures
        r == is_digit(c),
{
    let u = c as u32;
    48 <= u && u <= 57
}

pub fn digit_value_exec(c: char) -> (r: u64)
    requires
        is_digit(c),
    ensures
        r as nat == digit_val(c),
{
    (c as u32 - 48) as u64
}

/// Reads the digit string `s[from..to]` in base ten; `None` when a character
/// is not a digit or the value does not fit.
#[verifier::loop_isolation(false)]
fn digits_value(s: &str, from: usize, to: usize) -> (r: Option<u64>)
    requires
        from <= to,
        to as nat <= s@.len(),
    ensures
        ({
            let seg = s@.subrange(from as int, to as int);
            match r {
                Some(v) => all_digits(seg) && digits_val(seg) == v as nat,
                None => !all_digits(seg) || digits_val(seg) > u64::MAX,
            }
        }),
{
    let ghost seg = s@.subrange(from as int, to as int);
    let mut acc: u64 = 0;
    let mut j: usize = from;
    proof {
        assert(seg.take(0) =~= Seq::<char>::empty());
    }
    while j < to
        invariant
            from <= j <= to,
            to as nat <= s@.len(),
            seg == s@.subrange(from as int, to as int),
            all_digits(seg.take(j - from)),
            acc as nat == digits_val(seg.take(j - from)),
        decreases to - j,
    {
        let c = s.get_char(j);
        proof {
            assert(seg[j - from] == s@[j as int]);
        }
        if !digit_exec(c) {
            return None;
        }
        let d = digit_value_exec(c);
        proof {
            lemma_digits_val_snoc(seg.take(j - from), c);
            assert(seg.take(j - from + 1) =~= seg.take(j - from).push(c));
        }
        if acc > (u64::MAX - d) / 10 {
            proof {
                assert(10 * acc + d > u64::MAX) by {
                    let lim = (u64::MAX - d) as int;
                    assert(lim == 10 * (lim / 10) + lim % 10);
                    assert(acc >= lim / 10 + 1);
                };
                lemma_digits_val_prefix(seg, j - from + 1);
            }
            return None;
        }
        proof {
            assert(acc * 10 + d <= u64::MAX) by {
                let lim = (u64::MAX - d) as int;
                assert(lim == 10 * (lim / 10) + lim % 10);
            };
        }
        acc = acc * 10 + d;
        j += 1;
    }
    proof {
        assert(seg.take(to - from) =~= seg);
    }
    Some(acc)
}

/// Decodes an unsigned integer attribute exactly as `u32_of` describes.
pub fn parse_u32(s: &str) -> (r: Option<u32>)
    ensures
        r == u32_of(s@),
{
    let n = s.unicode_len();
    if n == 0 {
        return None;
    }
    let start: usize = if s.get_char(0) == '+' {
        1
    } else {
        0
    };
    proof {
        if start == 1 {
            assert(s@.subrange(1, n as int) =~= s@.drop_first());
        } else {
            assert(s@.subrange(0, n as int) =~= s@);
        }
    }
    if n - start == 0 {
        return None;
    }
    match digits_value(s, start, n) {
        None => None,
        Some(v) => if v <= 0xffff_ffff {
            Some(v as u32)
        } else {
            None
        },
    }
}

/// Decodes a signed integer attribute exactly as `i32_of` describes.
pub fn parse_i32(s: &str) -> (r: Option<i32>)
    ensures
        r == i32_of(s@),
{
    let n = s.unicode_len();
    if n == 0 {
        return None;
    }
    let c0 = s.get_char(0);
    let neg = c0 == '-';
    let start: usize = if c0 == '-' || c0 == '+' {
        1
    } else {
        0
    };
    proof {
        if start == 1 {
            assert(s@.subrange(1, n as int) =~= s@.drop_first());
        } else {
            assert(s@.subrange(0, n as int) =~= s@);
        }
    }
    if n - start == 0 {
        return None;
    }
    match digits_value(s, start, n) {
        None => None,
        Some(v) => if neg {
            if v <= 0x8000_0000 {
                Some((-(v as i64)) as i32)
            } else {
                None
            }
        } else {
            if v <= 0x7fff_ffff {
                Some(v as i32)
            } else {
                None
            }
        },
    }
}

/// Decodes a decimal number attribute exactly as `num_of` describes.
pub fn parse_num(s: &str) -> (r: Option<Num>)
    ensures
        r == num_of(s@),
{
    let n = s.unicode_len();
    if n == 0 {
        return None;
    }
    let c0 = s.get_char(0);
    let neg = c0 == '-';
    let start: usize = if c0 == '-' || c0 == '+' {
        1
    } else {
        0
    };
    proof {
        if start == 1 {
            assert(s@.skip(1) =~= s@.drop_first());
        } else {
            assert(s@.skip(0) =~= s@);
        }
    }
    match parse_body(s, start) {
        None => None,
        Some((m, k)) => Some(Num { neg, mantissa: m, scale: k }),
    }
}

/// Decodes the body of a decimal number, after any sign: digits with at most
/// one point between them, accumulated into a mantissa and a scale.
#[verifier::loop_isolation(false)]
fn parse_body(s: &str, start: usize) -> (r: Option<(u64, u64)>)
    requires
        start as nat <= s@.len(),
    ensures
        ({
            let body = s@.skip(start as int);
            match r {
                Some((m, k)) => num_body(body) == Some((m as nat, k as nat)) && k as nat <= u64::MAX,
                None => ({
                    ||| num_body(body) == None::<(nat, nat)>
                    ||| (num_body(body) matches Some((m, k)) && m > u64::MAX)
                }),
            }
        }),
{
    let n = s.unicode_len();
    let ghost body = s@.skip(start as int);
    // Find the first point, if any.
    let mut i: usize = start;
    let mut dot: Option<usize> = None;
    while i < n && dot.is_none()
        invariant
            start <= i <= n,
            n as nat == s@.len(),
            body == s@.skip(start as int),
            match dot {
                Some(p) => start <= p < n && s@[p as int] == '.' && (forall|t: int|
                    start <= t < p ==> s@[t] != '.') && i == p,
                None => forall|t: int| start <= t < i ==> s@[t] != '.',
            },
        decreases n - i + (if dot.is_none() { 1int } else { 0int }),
    {
        if s.get_char(i) == '.' {
            dot = Some(i);
        } else {
            i += 1;
        }
    }
    proof {
        assert(forall|t: int| 0 <= t < body.len() ==> body[t] == s@[t + start]);
        match dot {
            None => {
                lemma_pos_of_none(body, '.');
            },
            Some(p) => {
                lemma_pos_of_some(body, '.', p - start);
            },
        }
    }
    let (ip_end, fp_start): (usize, usize) = match dot {
        None => (n, n),
        Some(p) => (p, p + 1),
    };
    let ghost ip = body.take(ip_end - start);
    let ghost fp = body.skip(fp_start - start);
    let ghost comb = ip + fp;
    proof {
        match dot {
            None => {
                assert(ip =~= body);
                assert(fp =~= Seq::<char>::empty());
                assert(comb =~= body);
            },
            Some(p) => {
                assert(ip =~= body.take(p - start));
                assert(fp =~= body.skip(p - start + 1));
            },
        }
    }
    if ip_end == start && fp_start == n {
        // No digits at all: an empty body or a lone point.
        return None;
    }
    let mut acc: u64 = 0;
    let mut j: usize = start;
    proof {
        assert(comb.take(0) =~= Seq::<char>::empty());
    }
    while j < ip_end
        invariant
            start <= j <= ip_end <= n,
            n as nat == s@.len(),
            body == s@.skip(start as int),
            ip == body.take(ip_end - start),
            ip.len() == ip_end - start,
            comb == ip + fp,
            all_digits(comb.take(j - start)),
            acc as nat == digits_val(comb.take(j - start)),
        decreases ip_end - j,
    {
        let c = s.get_char(j);
        proof {
            assert(comb[j - start] == ip[j - start]);
            assert(ip[j - start] == body[j - start]);
            assert(body[j - start] == s@[j as int]);
        }
        if !digit_exec(c) {
            proof {
                assert(!is_digit(ip[j - start]));
            }
            return None;
        }
        let d = digit_value_exec(c);
        proof {
            lemma_digits_val_snoc(comb.take(j - start), c);
            assert(comb.take(j - start + 1) =~= comb.take(j - start).push(c));
        }
        if acc > (u64::MAX - d) / 10 {
            proof {
                assert(10 * acc + d > u64::MAX) by {
                    let lim = (u64::MAX - d) as int;
                    assert(lim == 10 * (lim / 10) + lim % 10);
                    assert(acc >= lim / 10 + 1);
                };
                lemma_digits_val_prefix(comb, j - start + 1);
            }
            return None;
        }
        proof {
            assert(acc * 10 + d <= u64::MAX) by {
                let lim = (u64::MAX - d) as int;
                assert(lim == 10 * (lim / 10) + lim % 10);
            };
        }
        acc = acc * 10 + d;
        j += 1;
    }
    let mut j2: usize = fp_start;
    while j2 < n
        invariant
            fp_start <= j2 <= n,
            n as nat == s@.len(),
            body == s@.skip(start as int),
            start <= ip_end <= n,
            fp_start <= n,
            ip.len() == ip_end - start,
            fp == body.skip(fp_start - start),
            fp.len() == n - fp_start,
            start as nat <= fp_start,
            comb == ip + fp,
            all_digits(comb.take(ip.len() + (j2 - fp_start))),
            acc as nat == digits_val(comb.take(ip.len() + (j2 - fp_start))),
        decreases n - j2,
    {
        let c = s.get_char(j2);
        proof {
            assert(comb[ip.len() + (j2 - fp_start)] == fp[j2 - fp_start]);
            assert(fp[j2 - fp_start] == body[j2 - start]);
            assert(body[j2 - start] == s@[j2 as int]);
        }
        if !digit_exec(c) {
            proof {
                assert(!is_digit(fp[j2 - fp_start]));
            }
            return None;
        }
        let d = digit_value_exec(c);
        proof {
            lemma_digits_val_snoc(comb.take(ip.len() + (j2 - fp_start)), c);
            assert(comb.take(ip.len() + (j2 - fp_start) + 1) =~= comb.take(
                ip.len() + (j2 - fp_start),
            ).push(c));
        }
        if acc > (u64::MAX - d) / 10 {
            proof {
                assert(10 * acc + d > u64::MAX) by {
                    let lim = (u64::MAX - d) as int;
                    assert(lim == 10 * (lim / 10) + lim % 10);
                    assert(acc >= lim / 10 + 1);
                };
                lemma_digits_val_prefix(comb, ip.len() + (j2 - fp_start) + 1);
            }
            return None;
        }
        proof {
            assert(acc * 10 + d <= u64::MAX) by {
                let lim = (u64::MAX - d) as int;
                assert(lim == 10 * (lim / 10) + lim % 10);
            };
        }
        acc = acc * 10 + d;
        j2 += 1;
    }
    proof {
        assert(comb.take(ip.len() + (n - fp_start)) =~= comb);
        assert(forall|t: int| 0 <= t < ip.len() ==> ip[t] == comb[t]);
        assert(forall|t: int| 0 <= t < fp.len() ==> fp[t] == comb[ip.len() + t]);
    }
    let k: u64 = (n - fp_start) as u64;
    Some((acc, k))
}

} // verus!
