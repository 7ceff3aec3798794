//! Quality values: the `q=` weights of `Accept` and `Accept-Language`
//! headers, held in thousandths so that `0.9` is `900`.
use vstd::prelude::*;

use crate::strutil::all_digits;
use crate::strutil::digit_val;
use crate::strutil::digits_val;
use crate::strutil::find_char;
use crate::strutil::first_index;
use crate::strutil::lemma_first_index;
use crate::strutil::lemma_first_index_unique;
use crate::strutil::parse_digits;

verus! {

/// The default weight: `1.0`, in thousandths.
pub const DEFAULT_Q: u32 = 1000;

/// Thousandths denoted by a fraction part; digits beyond the third are cut,
/// as the header grammar gives quality values at most three decimals.
pub open spec fn frac_thousandths(f: Seq<char>) -> int {
    if f.len() == 0 {
        0
    } else if f.len() == 1 {
        digit_val(f[0]) * 100
    } else if f.len() == 2 {
        digits_val(f) * 10
    } else {
        digits_val(f.subrange(0, 3))
    }
}

/// The weight denoted by a decimal numeral, in thousandths: digits, with at
/// most one point; an integer part of at most six digits; at least one digit.
pub open spec fn qvalue_spec(s: Seq<char>) -> Option<int> {
    let dot = first_index(s, '.');
    if dot == s.len() {
        if 1 <= s.len() <= 6 && all_digits(s) {
            Some(digits_val(s) * 1000)
        } else {
            None
        }
    } else {
        let ip = s.subrange(0, dot);
        let fp = s.subrange(dot + 1, s.len() as int);
        if ip.len() <= 6 && all_digits(ip) && all_digits(fp) && ip.len() + fp.len() >= 1 {
            Some(digits_val(ip) * 1000 + frac_thousandths(fp))
        } else {
            None
        }
    }
}

/// The weight taken from the part after a `;`: a `q=` assignment with a
/// parseable numeral; anything else falls back to the default.
pub open spec fn qpart_val(qp: Seq<char>) -> int {
    if qp.len() >= 2 && qp[0] == 'q' && qp[1] == '=' {
        match qvalue_spec(qp.subrange(2, qp.len() as int)) {
            Some(v) => v,
            None => DEFAULT_Q as int,
        }
    } else {
        DEFAULT_Q as int
    }
}

/// Parse a decimal numeral into thousandths.
pub fn parse_qvalue(s: &[char]) -> (r: Option<u32>)
    ensures
        r is Some <==> qvalue_spec(s@) is Some,
        r is Some ==> r->0 == qvalue_spec(s@)->0,
{
    let dot = find_char(s, 0, '.');
    proof {
        lemma_first_index(s@, '.');
        if dot < s@.len() {
            lemma_first_index_unique(s@, '.', dot as int);
        } else {
            lemma_first_index_unique(s@, '.', s@.len() as int);
        }
    }
    if dot == s.len() {
        match parse_digits(s, 6) {
            Some(v) => {
                proof {
                    crate::strutil::lemma_digits_val_small(s@);
                }
                Some((v as u32) * 1000)
            },
            None => None,
        }
    } else {
        let mut ip: Vec<char> = Vec::new();
        let mut i: usize = 0;
        while i < dot
            invariant
                i <= dot <= s@.len(),
                ip@ == s@.subrange(0, i as int),
            decreases dot - i,
        {
            ip.push(s[i]);
            i = i + 1;
            proof {
                assert(ip@ =~= s@.subrange(0, i as int));
            }
        }
        let mut fp: Vec<char> = Vec::new();
        let mut j: usize = dot + 1;
        while j < s.len()
            invariant
                dot + 1 <= j <= s@.len(),
                fp@ == s@.subrange(dot + 1, j as int),
            decreases s@.len() - j,
        {
            fp.push(s[j]);
            j = j + 1;
            proof {
                assert(fp@ =~= s@.subrange(dot + 1, j as int));
            }
        }
        if ip.len() > 6 {
            return None;
        }
        if ip.len() == 0 && fp.len() == 0 {
            return None;
        }
        let int_val: u64 = if ip.len() == 0 {
            proof {
                assert(all_digits(ip@));
            }
            0
        } else {
            match parse_digits(ip.as_slice(), 6) {
                Some(v) => v,
                None => {
                    return None;
                },
            }
        };
        let frac_val: u64 = match frac_part_value(fp.as_slice()) {
            Some(v) => v,
            None => {
                return None;
            },
        };
        proof {
            if ip@.len() == 0 {
                assert(digits_val(ip@) == 0);
            }
            crate::strutil::lemma_digits_val_small(ip@);
        }
        Some((int_val as u32) * 1000 + (frac_val as u32))
    }
}

/// Thousandths of a fraction part, requiring every character to be a digit.
fn frac_part_value(f: &[char]) -> (r: Option<u64>)
    ensures
        r is Some <==> all_digits(f@),
        r is Some ==> r->0 == frac_thousandths(f@),
        r is Some ==> r->0 <= 999,
{
    let mut k: usize = 0;
    while k < f.len()
        invariant
            k <= f@.len(),
            forall|j: int| 0 <= j < k ==> crate::strutil::is_digit(f@[j]),
        decreases f@.len() - k,
    {
        let c = f[k];
        if c < '0' || c > '9' {
            return None;
        }
        k = k + 1;
    }
    if f.len() == 0 {
        Some(0)
    } else if f.len() == 1 {
        let d = f[0] as u64 - 48;
        Some(d * 100)
    } else if f.len() == 2 {
        match parse_digits(f, 2) {
            Some(v) => {
                proof {
                    crate::strutil::lemma_digits_val_small(f@);
                }
                Some(v * 10)
            },
            None => None,
        }
    } else {
        let three = [f[0], f[1], f[2]];
        proof {
            assert(three@ =~= f@.subrange(0, 3));
            crate::strutil::lemma_digits_val_small(f@.subrange(0, 3));
        }
        match parse_digits(&three, 3) {
            Some(v) => Some(v),
            None => None,
        }
    }
}

/// The weight taken from the text after a `;`, already trimmed.
pub fn parse_qpart(qp: &[char]) -> (r: u32)
    ensures
        r == qpart_val(qp@),
{
    if qp.len() >= 2 && qp[0] == 'q' && qp[1] == '=' {
        let mut num: Vec<char> = Vec::new();
        let mut i: usize = 2;
        while i < qp.len()
            invariant
                2 <= i <= qp@.len(),
                num@ == qp@.subrange(2, i as int),
            decreases qp@.len() - i,
        {
            num.push(qp[i]);
            i = i + 1;
            proof {
                assert(num@ =~= qp@.subrange(2, i as int));
            }
        }
        match parse_qvalue(num.as_slice()) {
            Some(v) => v,
            None => DEFAULT_Q,
        }
    } else {
        DEFAULT_Q
    }
}

} // verus!
