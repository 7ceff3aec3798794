//! Short random identifiers over a 64-character alphabet, and the
//! identifier length that keeps the birthday-bound collision probability
//! below a power-of-ten target.
use rand::distributions::Distribution;
use vstd::prelude::*;

use crate::strutil::pow10;
use crate::strutil::push_char;

verus! {

/// The alphabet, by index: `A`-`Z`, `a`-`z`, `0`-`9`, `-`, `_`.
pub open spec fn b64_char(i: int) -> char {
    if i < 26 {
        (65 + i) as char
    } else if i < 52 {
        (97 + i - 26) as char
    } else if i < 62 {
        (48 + i - 52) as char
    } else if i == 62 {
        '-'
    } else {
        '_'
    }
}

/// Every character comes from the alphabet.
pub open spec fn is_b64_str(s: Seq<char>) -> bool {
    forall|j: int|
        #![trigger s[j]]
        0 <= j < s.len() ==> exists|i: int| 0 <= i < 64 && s[j] == #[trigger] b64_char(i)
}

#[verifier::external_type_specification]
#[verifier::external_body]
pub struct ExHc128Rng(rand_hc::Hc128Rng);

/// Relies on rand's `Uniform::new(0, 64)` and `Distribution::sample`: one
/// draw from the uniform distribution on `[0, 64)`.
#[verifier::external_body]
fn sample_index(rng: &mut rand_hc::Hc128Rng) -> (r: u8)
    ensures
        r < 64,
{
    rand::distributions::Uniform::new(0u8, 64u8).sample(rng)
}

/// The alphabet character at an index.
pub fn alphabet_char(i: u8) -> (r: char)
    ensures
        i < 64 ==> r == b64_char(i as int),
{
    if i < 26 {
        (65 + i) as char
    } else if i < 52 {
        (97 + i - 26) as char
    } else if i < 62 {
        (48 + i - 52) as char
    } else if i == 62 {
        '-'
    } else {
        '_'
    }
}

/// Generate an identifier of the given length, each character drawn
/// uniformly from the alphabet.
pub fn gen_str_id(size: usize, rng: &mut rand_hc::Hc128Rng) -> (r: String)
    ensures
        r@.len() == size,
        is_b64_str(r@),
{
    let mut out = String::new();
    let mut k: usize = 0;
    while k < size
        invariant
            k <= size,
            out@.len() == k,
            is_b64_str(out@),
        decreases size - k,
    {
        let ix = sample_index(rng);
        let c = alphabet_char(ix);
        push_char(&mut out, c);
        k = k + 1;
        proof {
            assert forall|j: int| #![trigger out@[j]] 0 <= j < out@.len() implies exists|i: int|
                0 <= i < 64 && out@[j] == #[trigger] b64_char(i) by {
                if j == out@.len() - 1 {
                    assert(out@[j] == b64_char(ix as int));
                }
            }
        }
    }
    out
}

/// Powers of 64.
pub open spec fn pow64(c: nat) -> int
    decreases c,
{
    if c == 0 {
        1
    } else {
        64 * pow64((c - 1) as nat)
    }
}

pub proof fn lemma_pow64_pos(c: nat)
    ensures
        pow64(c) >= 1,
    decreases c,
{
    if c > 0 {
        lemma_pow64_pos((c - 1) as nat);
    }
}

pub proof fn lemma_pow64_mono(a: nat, b: nat)
    requires
        a <= b,
    ensures
        pow64(a) <= pow64(b),
    decreases b,
{
    lemma_pow64_pos(a);
    if b > 0 {
        if a == b {
        } else {
            lemma_pow64_mono(a, (b - 1) as nat);
            lemma_pow64_pos((b - 1) as nat);
        }
    }
}

/// What the identifier length must satisfy: the least `c`, at least three,
/// with `2 * 64^c >= n * (n - 1) * 10^e`. At that length the birthday
/// bound puts the collision probability of `n` identifiers below `10^-e`.
pub open spec fn id_size_ok(n: int, e: nat, c: int) -> bool {
    let t = n * (n - 1) * pow10(e);
    c >= 3 && 2 * pow64(c as nat) >= t && (c == 3 || 2 * pow64((c - 1) as nat) < t)
}

/// The identifier length for a population of `n` identifiers and a target
/// collision probability of `10^-e`.
pub fn calc_id_size(n: u64, e: u32) -> (c: usize)
    requires
        e <= 18,
        (n as int) * (n as int - 1) * pow10(e as nat) < 0x2000000000000000000000000000000,
    ensures
        id_size_ok(n as int, e as nat, c as int),
        c >= 3,
{
    proof {
        assert((n as int) * (n as int - 1) <= 0xffffffffffffffff * 0xfffffffffffffffe)
            by (nonlinear_arith)
            requires
                n <= 0xffffffffffffffff,
        ;
    }
    let big_n: u128 = if n == 0 {
        0
    } else {
        (n as u128) * ((n - 1) as u128)
    };
    proof {
        crate::strutil::lemma_pow10_17();
        reveal_with_fuel(pow10, 20);
    }
    let mut big_e: u128 = 1;
    let mut k: u32 = 0;
    while k < e
        invariant
            k <= e <= 18,
            big_e == pow10(k as nat),
            big_e <= pow10(18),
            pow10(18) == 1000000000000000000,
        decreases e - k,
    {
        proof {
            lemma_pow10_mono_local((k + 1) as nat, 18);
        }
        big_e = big_e * 10;
        k = k + 1;
    }
    proof {
        assert(big_n * big_e == (n as int) * (n as int - 1) * pow10(e as nat)) by (nonlinear_arith)
            requires
                big_n == (n as int) * (n as int - 1),
                big_e == pow10(e as nat),
        ;
    }
    let t: u128 = big_n * big_e;
    proof {
        reveal_with_fuel(pow64, 4);
    }
    let mut c: usize = 3;
    let mut p: u128 = 262144;
    while 2 * p < t
        invariant
            3 <= c <= 21,
            p >= 1,
            p == pow64(c as nat),
            t < 0x2000000000000000000000000000000,
            p <= 0x40000000000000000000000000000000,
            c == 3 || 2 * pow64((c - 1) as nat) < t,
        decreases 21 - c,
    {
        proof {
            reveal_with_fuel(pow64, 22);
            if c >= 20 {
                lemma_pow64_mono(20, c as nat);
                assert(false);
            }
        }
        p = p * 64;
        c = c + 1;
    }
    proof {
        lemma_pow64_pos(c as nat);
    }
    c
}

proof fn lemma_pow10_mono_local(a: nat, b: nat)
    requires
        a <= b,
    ensures
        pow10(a) <= pow10(b),
    decreases b,
{
    if b > 0 {
        if a == b {
        } else {
            lemma_pow10_mono_local(a, (b - 1) as nat);
            reveal_with_fuel(pow10, 1);
            assert(pow10((b - 1) as nat) >= 1) by {
                lemma_pow10_pos((b - 1) as nat);
            }
        }
    }
}

proof fn lemma_pow10_pos(n: nat)
    ensures
        pow10(n) >= 1,
    decreases n,
{
    if n > 0 {
        lemma_pow10_pos((n - 1) as nat);
    }
}

/// The identifier length never shrinks as the population grows, and never
/// falls under three.
pub proof fn lemma_id_size_monotone(n1: int, n2: int, e: nat, c1: int, c2: int)
    requires
        0 <= n1 <= n2,
        id_size_ok(n1, e, c1),
        id_size_ok(n2, e, c2),
    ensures
        3 <= c1 <= c2,
{
    let t1 = n1 * (n1 - 1) * pow10(e);
    let t2 = n2 * (n2 - 1) * pow10(e);
    lemma_pow10_pos(e);
    assert(t1 <= t2) by (nonlinear_arith)
        requires
            0 <= n1 <= n2,
            pow10(e) >= 1,
            t1 == n1 * (n1 - 1) * pow10(e),
            t2 == n2 * (n2 - 1) * pow10(e),
    ;
    if c1 > c2 {
        assert(c1 >= 4);
        assert(2 * pow64((c1 - 1) as nat) < t1);
        lemma_pow64_mono(c2 as nat, (c1 - 1) as nat);
        assert(2 * pow64(c2 as nat) >= t2);
        assert(false);
    }
}

} // verus!
