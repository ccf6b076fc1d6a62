//! Distances arrive as strings with a trailing unit suffix ("13m", "7.5m").
//! The parser strips the suffix and reads the remainder as a decimal numeral,
//! exactly, into thousandths of a meter: one to fifteen integer digits and at
//! most three fraction digits, so every accepted value is represented without
//! rounding.

use vstd::prelude::*;
use vstd::string::StrSliceExecFns;
use crate::errors::ItemError;

verus! {

/// An ASCII decimal digit.
pub open spec fn is_digit(c: char) -> bool {
    c == '0' || c == '1' || c == '2' || c == '3' || c == '4' || c == '5' || c == '6' || c == '7'
        || c == '8' || c == '9'
}

/// The numeric value of an ASCII decimal digit.
pub open spec fn digit_val(c: char) -> int {
    if c == '0' {
        0
    } else if c == '1' {
        1
    } else if c == '2' {
        2
    } else if c == '3' {
        3
    } else if c == '4' {
        4
    } else if c == '5' {
        5
    } else if c == '6' {
        6
    } else if c == '7' {
        7
    } else if c == '8' {
        8
    } else {
        9
    }
}

/// Every character of `s` is a digit.
pub open spec fn all_digits(s: Seq<char>) -> bool {
    forall|i: int| 0 <= i < s.len() ==> is_digit(s[i])
}

/// The number a digit string names, most significant digit first.
pub open spec fn digits_val(s: Seq<char>) -> int
    decreases s.len(),
{
    if s.len() == 0 {
        0
    } else {
        digits_val(s.drop_last()) * 10 + digit_val(s.last())
    }
}

/// Ten to the `n`.
pub open spec fn pow10(n: nat) -> int
    decreases n,
{
    if n == 0 {
        1
    } else {
        10 * pow10((n - 1) as nat)
    }
}

/// The numeral `s` splits at `p` into an integer part of one to fifteen
/// digits, a dot, and a fraction part of one to three digits.
pub open spec fn dot_split_at(s: Seq<char>, p: int) -> bool {
    &&& 1 <= p <= 15
    &&& p + 1 < s.len()
    &&& s.len() - (p + 1) <= 3
    &&& s[p] == '.'
    &&& all_digits(s.take(p))
    &&& all_digits(s.skip(p + 1))
}

/// A decimal numeral exactly representable in thousandths: one to fifteen
/// integer digits, optionally followed by a dot and one to three fraction
/// digits.
pub open spec fn is_milli_decimal(s: Seq<char>) -> bool {
    (1 <= s.len() <= 15 && all_digits(s)) || (exists|p: int| dot_split_at(s, p))
}

/// The thousandths named by a fraction part of one to three digits.
pub open spec fn frac_milli(f: Seq<char>) -> int {
    if f.len() == 1 {
        100 * digit_val(f[0])
    } else if f.len() == 2 {
        100 * digit_val(f[0]) + 10 * digit_val(f[1])
    } else {
        100 * digit_val(f[0]) + 10 * digit_val(f[1]) + digit_val(f[2])
    }
}

/// The value of the numeral `s` in thousandths.
pub open spec fn milli_val(s: Seq<char>) -> int {
    if all_digits(s) {
        digits_val(s) * 1000
    } else {
        let p = choose|p: int| dot_split_at(s, p);
        digits_val(s.take(p)) * 1000 + frac_milli(s.skip(p + 1))
    }
}

/// A numeral has at most one valid split.
proof fn lemma_dot_unique(s: Seq<char>, p: int, q: int)
    requires
        dot_split_at(s, p),
        dot_split_at(s, q),
    ensures
        p == q,
{
    if p < q {
        assert(is_digit(s.skip(p + 1)[q - p - 1]));
        assert(s[q] == '.');
    }
    if q < p {
        assert(is_digit(s.skip(q + 1)[p - q - 1]));
        assert(s[p] == '.');
    }
}

/// With a dot at `p` and digits everywhere else, any valid split is at `p`.
proof fn lemma_split_only_at(s: Seq<char>, p: int, q: int)
    requires
        0 <= p < s.len(),
        s[p] == '.',
        forall|j: int| 0 <= j < s.len() && j != p ==> is_digit(s[j]),
        dot_split_at(s, q),
    ensures
        q == p,
{
    if q != p {
        if q < p {
            assert(is_digit(s.skip(q + 1)[p - q - 1]));
            assert(s[p] == '.');
        } else {
            assert(is_digit(s[q]));
            assert(s[q] == '.');
        }
    }
}

/// A numeral that splits at `p` is a valid decimal whose value adds the
/// integer part in thousandths and the fraction part.
proof fn lemma_milli_val_at(s: Seq<char>, p: int)
    requires
        dot_split_at(s, p),
    ensures
        !all_digits(s),
        is_milli_decimal(s),
        milli_val(s) == digits_val(s.take(p)) * 1000 + frac_milli(s.skip(p + 1)),
{
    assert(!is_digit(s[p]));
    assert(!all_digits(s));
    let q = choose|q: int| dot_split_at(s, q);
    lemma_dot_unique(s, p, q);
}

/// Powers of ten grow with the exponent and are positive.
proof fn lemma_pow10_mono(a: nat, b: nat)
    requires
        a <= b,
    ensures
        1 <= pow10(a) <= pow10(b),
    decreases b,
{
    if a < b {
        lemma_pow10_mono(a, (b - 1) as nat);
    } else if b == 0 {
    } else {
        lemma_pow10_mono((a - 1) as nat, (b - 1) as nat);
    }
}

/// The concrete powers of ten the parser's bounds rest on.
proof fn lemma_pow10_concrete()
    ensures
        pow10(14) == 100_000_000_000_000,
        pow10(15) == 1_000_000_000_000_000,
{
    reveal_with_fuel(pow10, 17);
}

/// The numeric value of an ASCII digit character, `None` for any other.
fn digit_of(c: char) -> (r: Option<u8>)
    ensures
        r is Some <==> is_digit(c),
        r matches Some(d) ==> d == digit_val(c),
{
    if c == '0' {
        Some(0)
    } else if c == '1' {
        Some(1)
    } else if c == '2' {
        Some(2)
    } else if c == '3' {
        Some(3)
    } else if c == '4' {
        Some(4)
    } else if c == '5' {
        Some(5)
    } else if c == '6' {
        Some(6)
    } else if c == '7' {
        Some(7)
    } else if c == '8' {
        Some(8)
    } else if c == '9' {
        Some(9)
    } else {
        None
    }
}

/// Reads the digit string `s@.take(plen)` into an `i64`, exactly.
fn read_digits(s: &str, plen: usize) -> (r: i64)
    requires
        plen <= 15,
        plen <= s@.len(),
        all_digits(s@.take(plen as int)),
    ensures
        r == digits_val(s@.take(plen as int)),
        0 <= r < 1_000_000_000_000_000,
{
    proof {
        lemma_pow10_concrete();
    }
    let mut acc: i64 = 0;
    let mut k: usize = 0;
    while k < plen
        invariant
            0 <= k <= plen,
            plen <= 15,
            plen <= s@.len(),
            all_digits(s@.take(plen as int)),
            acc == digits_val(s@.take(k as int)),
            0 <= acc < pow10(k as nat),
            pow10(14) == 100_000_000_000_000,
            pow10(15) == 1_000_000_000_000_000,
        decreases plen - k,
    {
        let c = s.get_char(k);
        proof {
            assert(s@.take(plen as int)[k as int] == s@[k as int]);
            assert(is_digit(c));
            lemma_pow10_mono(k as nat, 14);
        }
        let d = match digit_of(c) {
            Some(d) => d,
            None => unreached(),
        };
        acc = acc * 10 + (d as i64);
        proof {
            assert(s@.take(k as int + 1).drop_last() =~= s@.take(k as int));
            assert(s@.take(k as int + 1).last() == s@[k as int]);
            assert(pow10(k as nat + 1) == 10 * pow10(k as nat));
        }
        k = k + 1;
    }
    proof {
        lemma_pow10_mono(plen as nat, 15);
    }
    acc
}

/// Strips the unit suffix (the final character) off a distance string such as
/// "13m" and parses the remainder, exactly, into thousandths of a meter.  The
/// numeral may carry one to fifteen integer digits and up to three fraction
/// digits; anything else — including a value finer than a thousandth — is
/// malformed.
pub fn meter_str_to_milli(dist: &str) -> (r: Result<i64, ItemError>)
    ensures
        r is Ok <==> dist@.len() >= 1 && is_milli_decimal(dist@.take(dist@.len() - 1)),
        r matches Ok(v) ==> v == milli_val(dist@.take(dist@.len() - 1)),
        r matches Err(e) ==> e matches ItemError::MalformedDistance { text } && text@ == dist@,
{
    let full = dist.unicode_len();
    if full == 0 {
        return Err(ItemError::MalformedDistance { text: dist.to_owned() });
    }
    let n = full - 1;
    let ghost sub = dist@.take(n as int);
    let mut dot: usize = n;
    let mut i: usize = 0;
    while i < n
        invariant
            0 <= i <= n,
            n + 1 == dist@.len(),
            sub == dist@.take(n as int),
            n == sub.len(),
            dot <= n,
            dot == n ==> forall|j: int| 0 <= j < i ==> is_digit(sub[j]),
            dot < n ==> (dot as int) < i && 1 <= dot && sub[dot as int] == '.' && (forall|j: int|
                0 <= j < i && j != dot ==> is_digit(sub[j])),
        decreases n - i,
    {
        let c = dist.get_char(i);
        proof {
            assert(sub[i as int] == dist@[i as int]);
        }
        if c == '.' {
            if i == 0 {
                proof {
                    assert(!all_digits(sub)) by {
                        assert(!is_digit(sub[0]));
                    }
                    assert forall|p: int| !dot_split_at(sub, p) by {
                        if dot_split_at(sub, p) {
                            assert(is_digit(sub.take(p)[0]));
                            assert(sub[0] == '.');
                        }
                    }
                }
                return Err(ItemError::MalformedDistance { text: dist.to_owned() });
            }
            if dot < n {
                proof {
                    assert(!all_digits(sub)) by {
                        assert(!is_digit(sub[dot as int]));
                    }
                    assert forall|p: int| !dot_split_at(sub, p) by {
                        if dot_split_at(sub, p) {
                            if p == dot as int {
                                assert(is_digit(sub.skip(p + 1)[i - p - 1]));
                                assert(sub[i as int] == '.');
                            } else {
                                lemma_split_only_where_digit(sub, p, dot as int);
                            }
                        }
                    }
                }
                return Err(ItemError::MalformedDistance { text: dist.to_owned() });
            }
            dot = i;
        } else {
            let d = digit_of(c);
            if d.is_none() {
                proof {
                    assert(!all_digits(sub)) by {
                        assert(!is_digit(sub[i as int]));
                    }
                    assert forall|p: int| !dot_split_at(sub, p) by {
                        if dot_split_at(sub, p) {
                            lemma_split_only_where_digit(sub, p, i as int);
                        }
                    }
                }
                return Err(ItemError::MalformedDistance { text: dist.to_owned() });
            }
        }
        i = i + 1;
    }
    if dot == n {
        if n == 0 || n > 15 {
            proof {
                assert forall|p: int| !dot_split_at(sub, p) by {
                    if dot_split_at(sub, p) {
                        assert(is_digit(sub[p]));
                        assert(sub[p] == '.');
                    }
                }
            }
            return Err(ItemError::MalformedDistance { text: dist.to_owned() });
        }
        let v = read_digits(dist, n);
        proof {
            assert(sub =~= dist@.take(n as int));
            assert(all_digits(sub));
            assert(milli_val(sub) == digits_val(sub) * 1000);
        }
        Ok(v * 1000)
    } else {
        let p = dot;
        let flen = n - p - 1;
        if p > 15 || flen < 1 || flen > 3 {
            proof {
                assert(!all_digits(sub)) by {
                    assert(!is_digit(sub[p as int]));
                }
                assert forall|q: int| !dot_split_at(sub, q) by {
                    if dot_split_at(sub, q) {
                        lemma_split_only_at(sub, p as int, q);
                    }
                }
            }
            return Err(ItemError::MalformedDistance { text: dist.to_owned() });
        }
        proof {
            assert(all_digits(sub.take(p as int)));
            assert(all_digits(sub.skip(p as int + 1)));
            assert(dot_split_at(sub, p as int));
            lemma_milli_val_at(sub, p as int);
            assert(sub.take(p as int) =~= dist@.take(p as int));
        }
        let ip = read_digits(dist, p);
        let ghost f = sub.skip(p as int + 1);
        let d1 = match digit_of(dist.get_char(p + 1)) {
            Some(d) => d,
            None => unreached(),
        };
        proof {
            assert(f[0] == sub[p as int + 1] && sub[p as int + 1] == dist@[p as int + 1]);
        }
        let fr: i64 = if flen == 1 {
            100 * (d1 as i64)
        } else {
            let d2 = match digit_of(dist.get_char(p + 2)) {
                Some(d) => d,
                None => unreached(),
            };
            proof {
                assert(f[1] == sub[p as int + 2] && sub[p as int + 2] == dist@[p as int + 2]);
            }
            if flen == 2 {
                100 * (d1 as i64) + 10 * (d2 as i64)
            } else {
                let d3 = match digit_of(dist.get_char(p + 3)) {
                    Some(d) => d,
                    None => unreached(),
                };
                proof {
                    assert(f[2] == sub[p as int + 3] && sub[p as int + 3] == dist@[p as int + 3]);
                }
                100 * (d1 as i64) + 10 * (d2 as i64) + (d3 as i64)
            }
        };
        proof {
            assert(fr == frac_milli(f));
        }
        Ok(ip * 1000 + fr)
    }
}

/// Inside a valid split every position off the dot is a digit.
proof fn lemma_split_only_where_digit(s: Seq<char>, p: int, j: int)
    requires
        dot_split_at(s, p),
        0 <= j < s.len(),
        j != p,
    ensures
        is_digit(s[j]),
{
    if j < p {
        assert(is_digit(s.take(p)[j]));
    } else {
        assert(is_digit(s.skip(p + 1)[j - p - 1]));
    }
}

} // verus!
