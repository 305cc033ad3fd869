//! Numeric text edits of body fields.
//!
//! An edit hands over raw text; it is parsed as a signed fixed-point
//! decimal numeral: an optional sign, then up to thirteen integer digits
//! and, after an optional point, up to six fraction digits (the
//! fixed-point resolution), with at least one digit in all. Anything
//! else, and any value outside the representable range, parses to
//! nothing — the caller then leaves the edited field unchanged.

use vstd::prelude::*;

verus! {

use vstd::string::StringSliceAdditionalSpecFns;

use crate::fixed::SCALE;

/// The editable numeric fields of a body.
#[derive(Clone, Copy, PartialEq, Eq, Structural, Debug)]
pub enum BodyField {
    Mass,
    PosX,
    PosY,
    PosZ,
    VelX,
    VelY,
    VelZ,
}

pub open spec fn is_digit(c: u8) -> bool {
    48 <= c <= 57
}

pub open spec fn all_digits(s: Seq<u8>) -> bool {
    forall|i: int| 0 <= i < s.len() ==> is_digit(#[trigger] s[i])
}

/// Value of a digit string read most-significant first.
pub open spec fn digits_val(s: Seq<u8>) -> int
    decreases s.len(),
{
    if s.len() == 0 {
        0
    } else {
        digits_val(s.drop_last()) * 10 + (s.last() - 48)
    }
}

/// Index of the first `.` at or after `i`, or the length if there is none.
pub open spec fn find_dot(s: Seq<u8>, i: int) -> int
    recommends
        0 <= i <= s.len(),
    decreases s.len() - i,
{
    if i < 0 || i >= s.len() {
        s.len() as int
    } else if s[i] == 46 {
        i
    } else {
        find_dot(s, i + 1)
    }
}

pub open spec fn pow10(k: int) -> int {
    if k <= 0 {
        1
    } else if k == 1 {
        10
    } else if k == 2 {
        100
    } else if k == 3 {
        1_000
    } else if k == 4 {
        10_000
    } else if k == 5 {
        100_000
    } else {
        1_000_000
    }
}

/// The sign multiplier, and how many leading bytes it occupies.
pub open spec fn sign_of(b: Seq<u8>) -> (int, int) {
    if b.len() > 0 && b[0] == 45 {
        (-1int, 1int)
    } else if b.len() > 0 && b[0] == 43 {
        (1int, 1int)
    } else {
        (1int, 0int)
    }
}

pub open spec fn int_part(b: Seq<u8>) -> Seq<u8> {
    let body = b.subrange(sign_of(b).1, b.len() as int);
    body.subrange(0, find_dot(body, 0))
}

pub open spec fn frac_part(b: Seq<u8>) -> Seq<u8> {
    let body = b.subrange(sign_of(b).1, b.len() as int);
    let d = find_dot(body, 0);
    if d == body.len() {
        Seq::<u8>::empty()
    } else {
        body.subrange(d + 1, body.len() as int)
    }
}

/// The numeral grammar.
pub open spec fn numeral_ok(b: Seq<u8>) -> bool {
    &&& all_digits(int_part(b))
    &&& all_digits(frac_part(b))
    &&& int_part(b).len() + frac_part(b).len() > 0
    &&& int_part(b).len() <= 13
    &&& frac_part(b).len() <= 6
}

/// The value of a numeral, in raw fixed-point units.
pub open spec fn numeral_val(b: Seq<u8>) -> int {
    sign_of(b).0 * (digits_val(int_part(b)) * SCALE + digits_val(frac_part(b)) * pow10(
        6 - frac_part(b).len(),
    ))
}

/// What parsing yields: the value of a well-formed numeral that fits the
/// fixed-point range, nothing otherwise.
pub open spec fn parse_spec(b: Seq<u8>) -> Option<int> {
    if numeral_ok(b) && -0x7fff_ffff_ffff_ffff <= numeral_val(b) <= 0x7fff_ffff_ffff_ffff {
        Some(numeral_val(b))
    } else {
        None
    }
}

/// Powers of ten, for digit-count bounds.
pub open spec fn pow10n(k: int) -> int
    decreases k,
{
    if k <= 0 {
        1
    } else {
        10 * pow10n(k - 1)
    }
}

proof fn lemma_pow10n_le(a: int, b: int)
    requires
        0 <= a <= b,
    ensures
        pow10n(a) <= pow10n(b),
    decreases b - a,
{
    if a < b {
        lemma_pow10n_le(a, b - 1);
        assert(pow10n(b) == 10 * pow10n(b - 1));
        assert(pow10n(b - 1) >= 1) by {
            lemma_pow10n_pos(b - 1);
        };
    }
}

proof fn lemma_pow10n_pos(k: int)
    ensures
        pow10n(k) >= 1,
    decreases k,
{
    if k > 0 {
        lemma_pow10n_pos(k - 1);
    }
}

proof fn lemma_pow10n_vals()
    ensures
        pow10n(6) == 1_000_000,
        pow10n(13) == 10_000_000_000_000,
{
    assert(pow10n(0) == 1);
    assert(pow10n(1) == 10);
    assert(pow10n(2) == 100);
    assert(pow10n(3) == 1_000);
    assert(pow10n(4) == 10_000);
    assert(pow10n(5) == 100_000);
    assert(pow10n(6) == 1_000_000);
    assert(pow10n(7) == 10_000_000);
    assert(pow10n(8) == 100_000_000);
    assert(pow10n(9) == 1_000_000_000);
    assert(pow10n(10) == 10_000_000_000);
    assert(pow10n(11) == 100_000_000_000);
    assert(pow10n(12) == 1_000_000_000_000);
    assert(pow10n(13) == 10_000_000_000_000);
}

/// Scanning over bytes that are not the point does not move the first
/// point backward.
proof fn lemma_find_dot_step(s: Seq<u8>, i: int, m: int)
    requires
        0 <= i <= m <= s.len(),
        forall|k: int| i <= k < m ==> s[k] != 46,
    ensures
        find_dot(s, i) == find_dot(s, m),
    decreases m - i,
{
    if i < m {
        lemma_find_dot_step(s, i + 1, m);
    }
}

/// The first point is never before the scan start, nor past the end.
proof fn lemma_find_dot_ge(s: Seq<u8>, i: int)
    requires
        0 <= i <= s.len(),
    ensures
        i <= find_dot(s, i) <= s.len(),
    decreases s.len() - i,
{
    if i < s.len() && s[i] != 46 {
        lemma_find_dot_ge(s, i + 1);
    }
}

/// Parse raw text as a signed fixed-point decimal numeral.
pub fn parse_fixed(s: &str) -> (r: Option<i64>)
    ensures
        (r is None) == (parse_spec(s.spec_bytes()) is None),
        r matches Some(v) ==> parse_spec(s.spec_bytes()) == Some(v as int),
{
    let b = s.as_bytes();
    let n = b.len();
    let ghost bseq = s.spec_bytes();
    let (neg, start): (bool, usize) = if n > 0 && b[0] == 45 {
        (true, 1)
    } else if n > 0 && b[0] == 43 {
        (false, 1)
    } else {
        (false, 0)
    };
    let ghost body = bseq.subrange(start as int, n as int);
    let ghost d = find_dot(body, 0);
    // Integer part: scan digits up to the point or the end.
    let mut j: usize = start;
    let mut acc: i128 = 0;
    proof {
        lemma_pow10n_vals();
    }
    while j < n && b[j] != 46
        invariant
            bseq == s.spec_bytes(),
            start <= j <= n,
            n == bseq.len(),
            b@ == bseq,
            start == sign_of(bseq).1,
            body == bseq.subrange(start as int, n as int),
            d == find_dot(body, 0),
            forall|k: int| 0 <= k < j - start ==> is_digit(#[trigger] body[k]) && body[k] != 46,
            j - start <= 13,
            acc == digits_val(body.subrange(0, j - start)),
            0 <= acc < pow10n(j - start),
            acc < 10_000_000_000_000,
        decreases n - j,
    {
        proof {
            lemma_pow10n_vals();
            lemma_find_dot_step(body, j - start, (j + 1) - start);
        }
        let c = b[j];
        proof {
            assert(body[j - start] == bseq[j as int]);
        }
        if c < 48 || c > 57 {
            proof {
                lemma_find_dot_step(body, 0, j - start);
                assert(body[j - start] != 46);
                assert(find_dot(body, j - start) == find_dot(body, (j + 1) - start));
                lemma_find_dot_ge(body, (j + 1) - start);
                assert(d >= j + 1 - start);
                assert(int_part(bseq)[j - start] == body[j - start]);
                assert(!all_digits(int_part(bseq)));
                assert(!numeral_ok(bseq));
                assert(parse_spec(bseq) is None);
            }
            return None;
        }
        if j - start == 13 {
            proof {
                lemma_find_dot_step(body, 0, j - start);
                assert(body[j - start] != 46);
                assert(find_dot(body, j - start) == find_dot(body, (j + 1) - start));
                lemma_find_dot_ge(body, (j + 1) - start);
                assert(int_part(bseq).len() == d >= 14);
                assert(!numeral_ok(bseq));
                assert(parse_spec(bseq) is None);
            }
            return None;
        }
        proof {
            let pre = body.subrange(0, j - start);
            let pre1 = body.subrange(0, j + 1 - start);
            assert(pre1.drop_last() =~= pre);
            assert(pre1.last() == body[j - start]);
        }
        proof {
            assert(pow10n(j + 1 - start) == 10 * pow10n(j - start));
            lemma_pow10n_le(j + 1 - start, 13);
        }
        acc = acc * 10 + ((c - 48) as i128);
        j += 1;
    }
    proof {
        lemma_find_dot_step(body, 0, j - start);
        assert(d == j - start);
        assert(int_part(bseq) =~= body.subrange(0, j - start));
        assert(digits_val(int_part(bseq)) == acc);
    }
    // Fraction part, if a point follows.
    let mut facc: i128 = 0;
    let mut flen: usize = 0;
    proof {
        lemma_pow10n_vals();
    }
    if j < n {
        let mut k: usize = j + 1;
        while k < n
            invariant
                bseq == s.spec_bytes(),
                j + 1 <= k <= n,
                n == bseq.len(),
                b@ == bseq,
                start == sign_of(bseq).1,
                body == bseq.subrange(start as int, n as int),
                d == j - start < body.len(),
                d == find_dot(body, 0),
                frac_part(bseq) =~= body.subrange(d + 1, body.len() as int),
                flen == k - (j + 1) <= 6,
                forall|i: int|
                    0 <= i < flen ==> is_digit(#[trigger] frac_part(bseq)[i]),
                facc == digits_val(frac_part(bseq).subrange(0, flen as int)),
                0 <= facc < pow10n(flen as int),
                facc < 1_000_000,
            decreases n - k,
        {
            let c = b[k];
            proof {
                lemma_pow10n_vals();
                assert(body[k - start] == bseq[k as int]);
                assert(frac_part(bseq)[k - (j + 1)] == body[k - start]);
            }
            if c < 48 || c > 57 {
                proof {
                    assert(!all_digits(frac_part(bseq)));
                    assert(!numeral_ok(bseq));
                    assert(parse_spec(bseq) is None);
                }
                return None;
            }
            if flen == 6 {
                proof {
                    assert(frac_part(bseq).len() == n - 1 - j);
                    assert(frac_part(bseq).len() > 6);
                }
                return None;
            }
            proof {
                let fp = frac_part(bseq);
                let pre = fp.subrange(0, flen as int);
                let pre1 = fp.subrange(0, flen + 1);
                assert(pre1.drop_last() =~= pre);
                assert(pre1.last() == fp[flen as int]);
                assert(fp[flen as int] == body[k - start]);
            }
            proof {
                assert(pow10n(flen + 1) == 10 * pow10n(flen as int));
                lemma_pow10n_le(flen + 1, 6);
            }
            facc = facc * 10 + ((c - 48) as i128);
            flen += 1;
            k += 1;
        }
        proof {
            assert(frac_part(bseq).subrange(0, flen as int) =~= frac_part(bseq));
        }
    } else {
        proof {
            assert(frac_part(bseq) =~= Seq::<u8>::empty());
            assert(frac_part(bseq).subrange(0, 0) =~= frac_part(bseq));
        }
    }
    if j == start && flen == 0 {
        return None;
    }
    let scale_up: i128 = match 6 - flen {
        0 => 1,
        1 => 10,
        2 => 100,
        3 => 1_000,
        4 => 10_000,
        5 => 100_000,
        _ => 1_000_000,
    };
    proof {
        assert(scale_up as int == pow10(6 - flen));
        assert(digits_val(frac_part(bseq)) == facc);
        assert(numeral_ok(bseq));
        assert(0 <= (facc as int) * (scale_up as int) <= 1_000_000_000_000) by (nonlinear_arith)
            requires
                0 <= facc < 1_000_000,
                1 <= scale_up <= 1_000_000,
        ;
    }
    let mag: i128 = acc * 1_000_000 + facc * scale_up;
    let v: i128 = if neg {
        -mag
    } else {
        mag
    };
    proof {
        assert(mag as int == digits_val(int_part(bseq)) * SCALE + digits_val(frac_part(bseq))
            * pow10(6 - frac_part(bseq).len())) by (nonlinear_arith)
            requires
                mag as int == (acc as int) * 1_000_000 + (facc as int) * (scale_up as int),
                acc as int == digits_val(int_part(bseq)),
                facc as int == digits_val(frac_part(bseq)),
                scale_up as int == pow10(6 - frac_part(bseq).len()),
                SCALE == 1_000_000,
        ;
        assert(v as int == numeral_val(bseq)) by (nonlinear_arith)
            requires
                sign_of(bseq).0 == if neg { -1int } else { 1int },
                numeral_val(bseq) == sign_of(bseq).0 * (digits_val(int_part(bseq)) * SCALE
                    + digits_val(frac_part(bseq)) * pow10(6 - frac_part(bseq).len())),
                mag as int == digits_val(int_part(bseq)) * SCALE + digits_val(frac_part(bseq))
                    * pow10(6 - frac_part(bseq).len()),
                v as int == if neg { -(mag as int) } else { mag as int },
        ;
    }
    if v < -0x7fff_ffff_ffff_ffff || v > 0x7fff_ffff_ffff_ffff {
        return None;
    }
    Some(v as i64)
}

} // verus!
