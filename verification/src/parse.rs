//! Parsing the aggregate similarity score out of the external tool's
//! diagnostic text.
//!
//! The tool writes a line containing the literal marker `All: ` followed by
//! the aggregate score. The parser takes the first whitespace-delimited token
//! after the first occurrence of the marker and reads it as a plain decimal
//! number (digits with at most one decimal point), exactly, into parts per
//! million, keeping six fractional digits. A missing marker, an empty or
//! malformed token, or an integer part too large to scale yields `0`: the
//! fail-safe "not a duplicate" outcome, biasing the pipeline toward keeping
//! frames.

use crate::text::{find_sub, spec_find};
use vstd::prelude::*;
use vstd::slice::slice_subrange;
use vstd::string::StringSliceAdditionalSpecFns;

verus! {

/// Largest integer part the parser scales to parts per million.
pub const MAX_WHOLE_PART: u64 = 1_000_000_000_000;

/// ASCII whitespace, the token delimiters the parser recognises.
pub open spec fn is_space(b: u8) -> bool {
    b == 32 || b == 9 || b == 10 || b == 13 || b == 11 || b == 12
}

/// ASCII decimal digit.
pub open spec fn is_digit(b: u8) -> bool {
    48 <= b <= 57
}

/// First index at or after `i` holding a non-space byte, or the length.
pub open spec fn spec_skip_spaces(t: Seq<u8>, i: int) -> int
    decreases t.len() - i,
{
    if i < 0 || i >= t.len() {
        i
    } else if is_space(t[i]) {
        spec_skip_spaces(t, i + 1)
    } else {
        i
    }
}

/// First index at or after `i` holding a space byte, or the length.
pub open spec fn spec_token_end(t: Seq<u8>, i: int) -> int
    decreases t.len() - i,
{
    if i < 0 || i >= t.len() {
        i
    } else if is_space(t[i]) {
        i
    } else {
        spec_token_end(t, i + 1)
    }
}

/// Index of the first `.` at or after `i`, or the length.
pub open spec fn spec_first_dot(s: Seq<u8>, i: int) -> int
    decreases s.len() - i,
{
    if i < 0 || i >= s.len() {
        s.len() as int
    } else if s[i] == 46 {
        i
    } else {
        spec_first_dot(s, i + 1)
    }
}

/// Every byte is a decimal digit.
pub open spec fn all_digits(s: Seq<u8>) -> bool {
    forall|k: int| 0 <= k < s.len() ==> is_digit(#[trigger] s[k])
}

/// The value of a digit string, most significant first.
pub open spec fn digits_val(s: Seq<u8>) -> int
    decreases s.len(),
{
    if s.len() <= 0 {
        0
    } else {
        digits_val(s.drop_last()) * 10 + (s[s.len() - 1] - 48)
    }
}

/// Ten to the `k`.
pub open spec fn pow10(k: nat) -> int
    decreases k,
{
    if k == 0 {
        1
    } else {
        10 * pow10((k - 1) as nat)
    }
}

/// The first six fractional digits scaled to parts per million: shorter
/// fractions are padded with zeros, longer ones truncated.
pub open spec fn spec_frac_ppm(fp: Seq<u8>) -> int {
    if fp.len() >= 6 {
        digits_val(fp.take(6))
    } else {
        digits_val(fp) * pow10((6 - fp.len()) as nat)
    }
}

/// The value of one decimal token in parts per million, or `-1` when the
/// token is not a plain decimal number the parser accepts.
pub open spec fn spec_token_ppm(tok: Seq<u8>) -> int {
    let d = spec_first_dot(tok, 0);
    let ip = tok.take(d);
    let fp = if d == tok.len() {
        Seq::<u8>::empty()
    } else {
        tok.subrange(d + 1, tok.len() as int)
    };
    if all_digits(ip) && all_digits(fp) && ip.len() + fp.len() > 0 && digits_val(ip)
        <= MAX_WHOLE_PART {
        digits_val(ip) * 1000000 + spec_frac_ppm(fp)
    } else {
        -1
    }
}

/// The score read from the diagnostic text, in parts per million: the first
/// whitespace-delimited token after the first `All: ` marker, read as a plain
/// decimal; `0` when the marker is missing or the token malformed.
pub open spec fn spec_parse_ssim_ppm(t: Seq<u8>) -> int {
    let m = spec_find(t, "All: ".spec_bytes(), 0);
    if m == -1 {
        0
    } else {
        let ts = spec_skip_spaces(t, m + "All: ".spec_bytes().len());
        let te = spec_token_end(t, ts);
        let v = spec_token_ppm(t.subrange(ts, te));
        if v == -1 {
            0
        } else {
            v
        }
    }
}

/// A digit string's value is never negative.
proof fn lemma_digits_val_nonneg(s: Seq<u8>)
    requires
        all_digits(s),
    ensures
        digits_val(s) >= 0,
    decreases s.len(),
{
    if s.len() > 0 {
        assert(all_digits(s.drop_last()));
        lemma_digits_val_nonneg(s.drop_last());
    }
}

/// The value of a prefix never exceeds the value of the whole digit string.
proof fn lemma_digits_val_prefix(s: Seq<u8>, j: int)
    requires
        all_digits(s),
        0 <= j <= s.len(),
    ensures
        digits_val(s.take(j)) <= digits_val(s),
    decreases s.len() - j,
{
    if j < s.len() {
        let shorter = s.drop_last();
        assert(all_digits(shorter));
        lemma_digits_val_prefix(shorter, j);
        assert(s.take(j) =~= shorter.take(j));
        lemma_digits_val_nonneg(shorter);
        assert(digits_val(shorter) * 10 >= digits_val(shorter)) by (nonlinear_arith)
            requires
                digits_val(shorter) >= 0,
        ;
    } else {
        assert(s.take(j) =~= s);
    }
}

/// Powers of ten are at least one.
proof fn lemma_pow10_pos(k: nat)
    ensures
        pow10(k) >= 1,
    decreases k,
{
    if k > 0 {
        lemma_pow10_pos((k - 1) as nat);
    }
}

/// Powers of ten grow with the exponent.
proof fn lemma_pow10_mono(a: nat, b: nat)
    requires
        a <= b,
    ensures
        pow10(a) <= pow10(b),
    decreases b,
{
    if a < b {
        lemma_pow10_mono(a, (b - 1) as nat);
        lemma_pow10_pos((b - 1) as nat);
    }
}

/// A string of `n` digits is worth less than ten to the `n`.
proof fn lemma_digits_val_bound(s: Seq<u8>)
    requires
        all_digits(s),
    ensures
        0 <= digits_val(s) < pow10(s.len()),
    decreases s.len(),
{
    if s.len() == 0 {
    } else {
        let shorter = s.drop_last();
        assert(all_digits(shorter));
        lemma_digits_val_bound(shorter);
        assert(digits_val(shorter) * 10 <= (pow10(shorter.len()) - 1) * 10) by (nonlinear_arith)
            requires
                digits_val(shorter) <= pow10(shorter.len()) - 1,
        ;
        assert(digits_val(shorter) * 10 >= 0) by (nonlinear_arith)
            requires
                digits_val(shorter) >= 0,
        ;
    }
}

/// Exact power-of-ten factors for up to six fractional digits.
fn pow10_small(k: usize) -> (r: u64)
    requires
        k <= 6,
    ensures
        r as int == pow10(k as nat),
{
    proof {
        reveal_with_fuel(pow10, 8);
    }
    if k == 0 {
        1
    } else if k == 1 {
        10
    } else if k == 2 {
        100
    } else if k == 3 {
        1000
    } else if k == 4 {
        10000
    } else if k == 5 {
        100000
    } else {
        1000000
    }
}

/// Whether a byte is ASCII whitespace.
fn is_space_b(b: u8) -> (r: bool)
    ensures
        r == is_space(b),
{
    b == 32 || b == 9 || b == 10 || b == 13 || b == 11 || b == 12
}

/// The value of one decimal token in parts per million; `None` when the
/// token is not a plain decimal number.
fn token_ppm(tok: &[u8]) -> (r: Option<u64>)
    ensures
        r matches Some(v) ==> v as int == spec_token_ppm(tok@),
        r is None ==> spec_token_ppm(tok@) == -1,
{
    let ghost gd = spec_first_dot(tok@, 0);
    let n = tok.len();
    // locate the first dot
    let mut dot: usize = 0;
    while dot < n && tok[dot] != 46
        invariant
            n == tok@.len(),
            dot <= n,
            spec_first_dot(tok@, 0) == spec_first_dot(tok@, dot as int),
            forall|k: int| 0 <= k < dot as int ==> tok@[k] != 46,
        decreases n - dot,
    {
        dot += 1;
    }
    proof {
        assert(gd == dot as int);
    }
    let ghost ip = tok@.take(gd);
    let ghost fp = if gd == tok@.len() {
        Seq::<u8>::empty()
    } else {
        tok@.subrange(gd + 1, tok@.len() as int)
    };
    // read the integer part
    let mut whole: u64 = 0;
    let mut i: usize = 0;
    while i < dot
        invariant
            n == tok@.len(),
            dot <= n,
            gd == dot as int,
            gd == spec_first_dot(tok@, 0),
            ip == tok@.take(gd),
            i <= dot,
            all_digits(ip.take(i as int)),
            whole as int == digits_val(ip.take(i as int)),
            whole <= MAX_WHOLE_PART,
        decreases dot - i,
    {
        let b = tok[i];
        if b < 48 || b > 57 {
            proof {
                assert(ip[i as int] == tok@[i as int]);
                assert(!is_digit(ip[i as int]));
                assert(!all_digits(ip));
                assert(spec_token_ppm(tok@) == -1);
            }
            return None;
        }
        let next = whole * 10 + (b - 48) as u64;
        proof {
            assert(ip.take(i as int + 1).drop_last() =~= ip.take(i as int));
            assert(ip.take(i as int + 1)[i as int] == tok@[i as int]);
        }
        if next > MAX_WHOLE_PART {
            proof {
                if all_digits(ip) {
                    lemma_digits_val_prefix(ip, i as int + 1);
                }
                assert(spec_token_ppm(tok@) == -1);
            }
            return None;
        }
        whole = next;
        i += 1;
    }
    proof {
        assert(ip.take(dot as int) =~= ip);
    }
    // read the fractional part: the first six digits count, the rest only
    // have to be digits
    let mut frac: u64 = 0;
    let mut taken: usize = 0;
    let mut j: usize = if dot == n {
        n
    } else {
        dot + 1
    };
    proof {
        if dot < n {
            assert(fp =~= tok@.subrange(gd + 1, tok@.len() as int));
        }
    }
    while j < n
        invariant
            n == tok@.len(),
            dot <= n,
            gd == dot as int,
            gd == spec_first_dot(tok@, 0),
            ip == tok@.take(gd),
            fp == (if gd == tok@.len() {
                Seq::<u8>::empty()
            } else {
                tok@.subrange(gd + 1, tok@.len() as int)
            }),
            dot < n ==> dot as int + 1 <= j as int <= n,
            dot == n ==> j == n && taken == 0 && frac == 0,
            dot < n ==> taken as int == (if j as int - (gd + 1) <= 6 {
                j as int - (gd + 1)
            } else {
                6int
            }),
            dot < n ==> all_digits(fp.take(j as int - (gd + 1))),
            frac as int == digits_val(fp.take(taken as int)),
            taken <= 6,
            frac <= 999999,
        decreases n - j,
    {
        let b = tok[j];
        if b < 48 || b > 57 {
            proof {
                assert(fp[j as int - (gd + 1)] == tok@[j as int]);
                assert(!is_digit(fp[j as int - (gd + 1)]));
                assert(spec_token_ppm(tok@) == -1);
            }
            return None;
        }
        proof {
            assert(fp.take(j as int - (gd + 1) + 1).drop_last() =~= fp.take(j as int - (gd + 1)));
            assert(fp.take(j as int - (gd + 1) + 1)[j as int - (gd + 1)] == tok@[j as int]);
        }
        if taken < 6 {
            proof {
                assert(fp.take(taken as int + 1).drop_last() =~= fp.take(taken as int));
                assert(fp.take(taken as int + 1)[taken as int] == tok@[j as int]);
                assert(all_digits(fp.take(taken as int + 1)));
                lemma_digits_val_bound(fp.take(taken as int + 1));
                lemma_pow10_mono((taken + 1) as nat, 6);
                assert(pow10(6) == 1000000) by {
                    reveal_with_fuel(pow10, 8);
                }
            }
            frac = frac * 10 + (b - 48) as u64;
            taken += 1;
        }
        j += 1;
    }
    // reject an empty token ("" or ".")
    if dot == n && n == 0 {
        proof {
            assert(spec_token_ppm(tok@) == -1);
        }
        return None;
    }
    if dot < n && dot == 0 && n == 1 {
        proof {
            assert(fp =~= Seq::<u8>::empty());
            assert(ip.len() == 0 && fp.len() == 0);
            assert(spec_token_ppm(tok@) == -1);
        }
        return None;
    }
    // scale a short fraction up to six digits
    let flen = if dot == n {
        0
    } else {
        n - dot - 1
    };
    let scaled = if flen < 6 {
        proof {
            assert(fp.len() == flen as int);
            assert(fp.take(flen as int) =~= fp);
            assert(all_digits(fp));
            lemma_digits_val_bound(fp);
            lemma_pow10_mono(fp.len(), 6);
            lemma_pow10_pos((6 - flen) as nat);
            lemma_pow10_mono((6 - flen) as nat, 6);
            assert(pow10(6) == 1000000) by {
                reveal_with_fuel(pow10, 8);
            }
            assert(digits_val(fp) * pow10((6 - flen) as nat) <= 999999 * 1000000)
                by (nonlinear_arith)
                requires
                    0 <= digits_val(fp) <= 999999,
                    0 <= pow10((6 - flen) as nat) <= 1000000,
            ;
            assert(digits_val(fp) * pow10((6 - flen) as nat) >= 0) by (nonlinear_arith)
                requires
                    0 <= digits_val(fp),
                    0 <= pow10((6 - flen) as nat),
            ;
        }
        frac * pow10_small(6 - flen)
    } else {
        proof {
            assert(fp.take(taken as int) =~= fp.take(6));
        }
        frac
    };
    proof {
        assert(all_digits(ip));
        assert(all_digits(fp)) by {
            assert(fp.take(fp.len() as int) =~= fp);
        }
        lemma_digits_val_nonneg(ip);
        assert(scaled as int == spec_frac_ppm(fp));
        assert(spec_token_ppm(tok@) == digits_val(ip) * 1000000 + spec_frac_ppm(fp));
        assert(whole as int * 1000000 <= 1000000000000000000int) by (nonlinear_arith)
            requires
                0 <= whole as int <= 1000000000000int,
        ;
    }
    Some(whole * 1000000 + scaled)
}

/// Read the aggregate similarity score from the tool's diagnostic text,
/// in parts per million. Returns `0` whenever no score can be read.
pub fn parse_ssim_ppm(text: &[u8]) -> (r: u64)
    ensures
        r as int == spec_parse_ssim_ppm(text@),
{
    let marker = "All: ".as_bytes();
    let m = match find_sub(text, marker) {
        Some(i) => i,
        None => {
            return 0;
        },
    };
    proof {
        crate::text::lemma_find_characterizes(text@, marker@, 0);
        assert(crate::text::matches_at(text@, marker@, m as int));
    }
    let tlen = text.len();
    let mut ts = m + marker.len();
    while ts < tlen && is_space_b(text[ts])
        invariant
            tlen == text@.len(),
            ts <= tlen,
            spec_skip_spaces(text@, m as int + "All: ".spec_bytes().len()) == spec_skip_spaces(
                text@,
                ts as int,
            ),
        decreases tlen - ts,
    {
        ts += 1;
    }
    let mut te = ts;
    while te < tlen && !is_space_b(text[te])
        invariant
            tlen == text@.len(),
            ts <= te <= tlen,
            spec_token_end(text@, ts as int) == spec_token_end(text@, te as int),
        decreases tlen - te,
    {
        te += 1;
    }
    let tok = slice_subrange(text, ts, te);
    match token_ppm(tok) {
        Some(v) => v,
        None => 0,
    }
}

} // verus!
