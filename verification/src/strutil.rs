//! Small executable helpers over strings and character vectors.
//!
//! All parsing in this crate works over `Vec<char>` so that contracts can
//! speak about `Seq<char>` directly.
use vstd::prelude::*;

verus! {

/// Relies on `String::push`: appends one character to the string.
#[verifier::external_body]
pub fn push_char(s: &mut String, c: char)
    ensures
        final(s)@ == old(s)@.push(c),
{
    s.push(c);
}

/// Collect the characters of a string slice into a vector.
pub fn chars_of(s: &str) -> (r: Vec<char>)
    ensures
        r@ == s@,
{
    let n: usize = s.unicode_len();
    let mut r: Vec<char> = Vec::new();
    let mut i: usize = 0;
    while i < n
        invariant
            n == s@.len(),
            i <= n,
            r@ == s@.subrange(0, i as int),
        decreases n - i,
    {
        let c = s.get_char(i);
        r.push(c);
        i = i + 1;
        proof {
            assert(r@ =~= s@.subrange(0, i as int));
        }
    }
    proof {
        assert(r@ =~= s@);
    }
    r
}

/// Build an owned string out of a slice of characters.
pub fn string_of(cs: &[char]) -> (r: String)
    ensures
        r@ == cs@,
{
    let mut r = String::new();
    let mut i: usize = 0;
    while i < cs.len()
        invariant
            i <= cs@.len(),
            r@ == cs@.subrange(0, i as int),
        decreases cs@.len() - i,
    {
        push_char(&mut r, cs[i]);
        i = i + 1;
        proof {
            assert(r@ =~= cs@.subrange(0, i as int));
        }
    }
    proof {
        assert(r@ =~= cs@);
    }
    r
}

/// Equality of two string slices, by characters.
pub fn str_eq(a: &str, b: &str) -> (r: bool)
    ensures
        r == (a@ == b@),
{
    let na: usize = a.unicode_len();
    let nb: usize = b.unicode_len();
    if na != nb {
        return false;
    }
    let mut i: usize = 0;
    while i < na
        invariant
            na == a@.len(),
            na == b@.len(),
            i <= na,
            forall|j: int| 0 <= j < i ==> a@[j] == b@[j],
        decreases na - i,
    {
        if a.get_char(i) != b.get_char(i) {
            return false;
        }
        i = i + 1;
    }
    proof {
        assert(a@ =~= b@);
    }
    true
}

/// Equality of a character slice and a string slice.
pub fn chars_eq_str(a: &[char], b: &str) -> (r: bool)
    ensures
        r == (a@ == b@),
{
    let nb: usize = b.unicode_len();
    if a.len() != nb {
        return false;
    }
    let mut i: usize = 0;
    while i < nb
        invariant
            nb == b@.len(),
            nb == a@.len(),
            i <= nb,
            forall|j: int| 0 <= j < i ==> a@[j] == b@[j],
        decreases nb - i,
    {
        if a[i] != b.get_char(i) {
            return false;
        }
        i = i + 1;
    }
    proof {
        assert(a@ =~= b@);
    }
    true
}

pub open spec fn is_space(c: char) -> bool {
    c == ' ' || c == '\t'
}

/// The sequence with leading and trailing spaces removed.
pub open spec fn trim_spec(s: Seq<char>) -> Seq<char>
    decreases s.len(),
{
    if s.len() == 0 {
        s
    } else if is_space(s[0]) {
        trim_spec(s.subrange(1, s.len() as int))
    } else if is_space(s[s.len() - 1]) {
        trim_spec(s.subrange(0, s.len() - 1))
    } else {
        s
    }
}

/// Remove leading and trailing spaces of a character vector.
pub fn trim(s: &[char]) -> (r: Vec<char>)
    ensures
        r@ == trim_spec(s@),
{
    let mut lo: usize = 0;
    let mut hi: usize = s.len();
    proof {
        assert(s@.subrange(0, s@.len() as int) =~= s@);
    }
    while lo < hi && is_space_char(s[lo])
        invariant
            lo <= hi <= s@.len(),
            trim_spec(s@) == trim_spec(s@.subrange(lo as int, hi as int)),
        decreases hi - lo,
    {
        proof {
            lemma_trim_drop_first(s@.subrange(lo as int, hi as int));
            assert(s@.subrange(lo as int, hi as int).subrange(
                1,
                s@.subrange(lo as int, hi as int).len() as int,
            ) =~= s@.subrange(lo + 1, hi as int));
        }
        lo = lo + 1;
    }
    while lo < hi && is_space_char(s[hi - 1])
        invariant
            lo <= hi <= s@.len(),
            trim_spec(s@) == trim_spec(s@.subrange(lo as int, hi as int)),
            lo < hi ==> !is_space(s@[lo as int]),
        decreases hi - lo,
    {
        proof {
            lemma_trim_drop_last(s@.subrange(lo as int, hi as int));
            assert(s@.subrange(lo as int, hi as int).subrange(
                0,
                s@.subrange(lo as int, hi as int).len() - 1,
            ) =~= s@.subrange(lo as int, hi as int - 1));
        }
        hi = hi - 1;
    }
    let mut r: Vec<char> = Vec::new();
    let mut i: usize = lo;
    while i < hi
        invariant
            lo <= i <= hi <= s@.len(),
            r@ == s@.subrange(lo as int, i as int),
        decreases hi - i,
    {
        r.push(s[i]);
        i = i + 1;
        proof {
            assert(r@ =~= s@.subrange(lo as int, i as int));
        }
    }
    proof {
        lemma_trim_fixed(s@.subrange(lo as int, hi as int));
    }
    r
}

/// Executable test for `is_space`.
pub fn is_space_char(c: char) -> (r: bool)
    ensures
        r == is_space(c),
{
    c == ' ' || c == '\t'
}

proof fn lemma_trim_drop_first(s: Seq<char>)
    requires
        s.len() > 0,
        is_space(s[0]),
    ensures
        trim_spec(s) == trim_spec(s.subrange(1, s.len() as int)),
{
}

proof fn lemma_trim_drop_last(s: Seq<char>)
    requires
        s.len() > 0,
        !is_space(s[0]),
        is_space(s[s.len() - 1]),
    ensures
        trim_spec(s) == trim_spec(s.subrange(0, s.len() - 1)),
{
}

proof fn lemma_trim_fixed(s: Seq<char>)
    requires
        s.len() == 0 || (!is_space(s[0]) && !is_space(s[s.len() - 1])),
    ensures
        trim_spec(s) == s,
{
}

/// Split a sequence at every occurrence of the separator; the separator
/// itself appears in no part.
pub open spec fn split_spec(s: Seq<char>, sep: char) -> Seq<Seq<char>>
    decreases s.len(),
{
    if s.len() == 0 {
        seq![Seq::<char>::empty()]
    } else if s[0] == sep {
        seq![Seq::<char>::empty()] + split_spec(s.subrange(1, s.len() as int), sep)
    } else {
        let r = split_spec(s.subrange(1, s.len() as int), sep);
        seq![seq![s[0]] + r[0]] + r.subrange(1, r.len() as int)
    }
}

pub proof fn lemma_split_len(s: Seq<char>, sep: char)
    ensures
        split_spec(s, sep).len() >= 1,
    decreases s.len(),
{
    if s.len() > 0 {
        lemma_split_len(s.subrange(1, s.len() as int), sep);
    }
}

/// A split step: the first part runs to the first separator, and the rest
/// of the parts split the remainder.
pub proof fn lemma_split_chunk(s: Seq<char>, sep: char)
    ensures
        first_index(s, sep) == s.len() ==> split_spec(s, sep) == seq![s],
        first_index(s, sep) < s.len() ==> split_spec(s, sep) == seq![
            s.subrange(0, first_index(s, sep)),
        ] + split_spec(s.subrange(first_index(s, sep) + 1, s.len() as int), sep),
    decreases s.len(),
{
    lemma_first_index(s, sep);
    if s.len() == 0 {
        assert(s =~= Seq::<char>::empty());
    } else if s[0] == sep {
        assert(first_index(s, sep) == 0);
        assert(s.subrange(0, 0) =~= Seq::<char>::empty());
    } else {
        let sub = s.subrange(1, s.len() as int);
        lemma_split_chunk(sub, sep);
        lemma_split_len(sub, sep);
        let i = first_index(s, sep);
        assert(i == 1 + first_index(sub, sep));
        if i == s.len() {
            assert(split_spec(sub, sep) == seq![sub]);
            assert(split_spec(s, sep) =~= seq![seq![s[0]] + sub]);
            assert(seq![s[0]] + sub =~= s);
        } else {
            let fi = first_index(sub, sep);
            assert(split_spec(sub, sep) == seq![sub.subrange(0, fi)] + split_spec(
                sub.subrange(fi + 1, sub.len() as int),
                sep,
            ));
            assert(seq![s[0]] + sub.subrange(0, fi) =~= s.subrange(0, i));
            assert(sub.subrange(fi + 1, sub.len() as int) =~= s.subrange(i + 1, s.len() as int));
            assert(split_spec(s, sep) =~= seq![s.subrange(0, i)] + split_spec(
                s.subrange(i + 1, s.len() as int),
                sep,
            ));
        }
    }
}

/// Index of the first occurrence of `c`, if any; the length otherwise.
pub open spec fn first_index(s: Seq<char>, c: char) -> int
    decreases s.len(),
{
    if s.len() == 0 {
        0
    } else if s[0] == c {
        0
    } else {
        1 + first_index(s.subrange(1, s.len() as int), c)
    }
}

pub proof fn lemma_first_index(s: Seq<char>, c: char)
    ensures
        0 <= first_index(s, c) <= s.len(),
        forall|j: int| 0 <= j < first_index(s, c) ==> s[j] != c,
        first_index(s, c) < s.len() ==> s[first_index(s, c)] == c,
    decreases s.len(),
{
    if s.len() > 0 && s[0] != c {
        let sub = s.subrange(1, s.len() as int);
        lemma_first_index(sub, c);
        assert forall|j: int| 0 <= j < first_index(s, c) implies s[j] != c by {
            if j > 0 {
                assert(s[j] == sub[j - 1]);
            }
        }
        if first_index(s, c) < s.len() {
            assert(s[first_index(s, c)] == sub[first_index(s, c) - 1]);
        }
    }
}

/// Find the first occurrence of `c` in `s` at or after `from`.
pub fn find_char(s: &[char], from: usize, c: char) -> (r: usize)
    requires
        from <= s@.len(),
    ensures
        from <= r <= s@.len(),
        forall|j: int| from <= j < r ==> s@[j] != c,
        r < s@.len() ==> s@[r as int] == c,
{
    let mut i: usize = from;
    while i < s.len()
        invariant
            from <= i <= s@.len(),
            forall|j: int| from <= j < i ==> s@[j] != c,
        decreases s@.len() - i,
    {
        if s[i] == c {
            return i;
        }
        i = i + 1;
    }
    i
}

/// The views of a vector of character vectors.
pub open spec fn views_of(v: Seq<Vec<char>>) -> Seq<Seq<char>> {
    v.map_values(|p: Vec<char>| p@)
}

/// The views of a vector of strings.
pub open spec fn str_views(v: Seq<String>) -> Seq<Seq<char>> {
    v.map_values(|s: String| s@)
}

/// The first index is determined by its defining properties.
pub proof fn lemma_first_index_unique(s: Seq<char>, c: char, i: int)
    requires
        0 <= i <= s.len(),
        forall|j: int| 0 <= j < i ==> s[j] != c,
        i < s.len() ==> s[i] == c,
    ensures
        first_index(s, c) == i,
{
    lemma_first_index(s, c);
    let fi = first_index(s, c);
    if fi < i {
        assert(s[fi] == c);
    } else if i < fi {
        assert(s[i] != c);
    }
}

/// Split a character slice on a separator character.
pub fn split(s: &[char], sep: char) -> (r: Vec<Vec<char>>)
    ensures
        views_of(r@) == split_spec(s@, sep),
        r@.len() >= 1,
{
    let mut parts: Vec<Vec<char>> = Vec::new();
    let mut start: usize = 0;
    proof {
        assert(s@.subrange(0, s@.len() as int) =~= s@);
        assert(views_of(parts@) =~= Seq::<Seq<char>>::empty());
        assert(views_of(parts@) + split_spec(s@, sep) =~= split_spec(s@, sep));
    }
    loop
        invariant
            start <= s@.len(),
            split_spec(s@, sep) == views_of(parts@) + split_spec(
                s@.subrange(start as int, s@.len() as int),
                sep,
            ),
        decreases s@.len() - start + 1,
    {
        let next = find_char(s, start, sep);
        let mut part: Vec<char> = Vec::new();
        let mut i: usize = start;
        while i < next
            invariant
                start <= i <= next <= s@.len(),
                part@ == s@.subrange(start as int, i as int),
            decreases next - i,
        {
            part.push(s[i]);
            i = i + 1;
            proof {
                assert(part@ =~= s@.subrange(start as int, i as int));
            }
        }
        let ghost rest = s@.subrange(start as int, s@.len() as int);
        proof {
            lemma_first_index(rest, sep);
            assert forall|k: int| 0 <= k < next - start implies rest[k] != sep by {
                assert(rest[k] == s@[start + k]);
            }
            if next < s@.len() {
                assert(rest[(next - start) as int] == s@[next as int]);
                assert(first_index(rest, sep) == next - start);
            } else {
                assert(first_index(rest, sep) == rest.len());
            }
            lemma_split_chunk(rest, sep);
            assert(views_of(parts@ + seq![part]) =~= views_of(parts@) + seq![part@]);
        }
        if next == s.len() {
            proof {
                assert(split_spec(rest, sep) == seq![rest]);
                assert(part@ =~= rest);
            }
            parts.push(part);
            proof {
                assert(views_of(parts@) =~= split_spec(s@, sep));
            }
            return parts;
        } else {
            proof {
                assert(split_spec(rest, sep) == seq![rest.subrange(0, next - start)] + split_spec(
                    rest.subrange(next - start + 1, rest.len() as int),
                    sep,
                ));
                assert(part@ =~= rest.subrange(0, next - start));
                assert(rest.subrange(next - start + 1, rest.len() as int) =~= s@.subrange(
                    next + 1,
                    s@.len() as int,
                ));
            }
            parts.push(part);
            start = next + 1;
        }
    }
}

/// Decimal digit test.
pub open spec fn is_digit(c: char) -> bool {
    '0' <= c && c <= '9'
}

pub open spec fn digit_val(c: char) -> int {
    c as int - '0' as int
}

/// Value of a sequence of decimal digits, most significant first.
pub open spec fn digits_val(s: Seq<char>) -> int
    decreases s.len(),
{
    if s.len() == 0 {
        0
    } else {
        digits_val(s.subrange(0, s.len() - 1)) * 10 + digit_val(s[s.len() - 1])
    }
}

pub open spec fn all_digits(s: Seq<char>) -> bool {
    forall|j: int| 0 <= j < s.len() ==> is_digit(s[j])
}

/// Parse a non-empty run of at most `max_digits` decimal digits.
/// Returns `None` when the slice is empty, holds a non-digit, or is too long.
pub fn parse_digits(s: &[char], max_digits: usize) -> (r: Option<u64>)
    requires
        max_digits <= 18,
    ensures
        r is Some <==> (1 <= s@.len() <= max_digits && all_digits(s@)),
        r is Some ==> r->0 == digits_val(s@),
        r is Some ==> r->0 < 1000000000000000000,
{
    if s.len() == 0 || s.len() > max_digits {
        return None;
    }
    let mut v: u64 = 0;
    let mut i: usize = 0;
    while i < s.len()
        invariant
            i <= s@.len(),
            s@.len() <= max_digits <= 18,
            forall|j: int| 0 <= j < i ==> is_digit(s@[j]),
            v == digits_val(s@.subrange(0, i as int)),
            v < 1000000000000000000,
        decreases s@.len() - i,
    {
        let c = s[i];
        if c < '0' || c > '9' {
            return None;
        }
        proof {
            lemma_digits_bound(s@.subrange(0, i as int));
            assert(s@.subrange(0, i + 1).subrange(0, i as int) =~= s@.subrange(0, i as int));
        }
        v = v * 10 + (c as u64 - 48);
        i = i + 1;
    }
    proof {
        assert(s@.subrange(0, s@.len() as int) =~= s@);
    }
    Some(v)
}

proof fn lemma_digits_bound(s: Seq<char>)
    requires
        all_digits(s),
        s.len() <= 17,
    ensures
        0 <= digits_val(s) < 100000000000000000,
    decreases s.len(),
{
    lemma_digits_bound_n(s);
    lemma_pow10_17();
    lemma_pow10_mono(s.len() as nat, 17);
}

proof fn lemma_pow10_mono(a: nat, b: nat)
    requires
        a <= b,
    ensures
        pow10(a) <= pow10(b),
        pow10(a) >= 1,
    decreases b,
{
    if b > 0 {
        if a == b {
            lemma_pow10_mono((a - 1) as nat, (b - 1) as nat);
        } else {
            lemma_pow10_mono(a, (b - 1) as nat);
        }
    }
}

proof fn lemma_digits_bound_n(s: Seq<char>)
    requires
        all_digits(s),
    ensures
        0 <= digits_val(s),
        digits_val(s) < pow10(s.len() as nat),
    decreases s.len(),
{
    if s.len() > 0 {
        let pre = s.subrange(0, s.len() - 1);
        assert(all_digits(pre));
        lemma_digits_bound_n(pre);
        assert(digits_val(pre) <= pow10(pre.len() as nat) - 1);
        assert(pow10(s.len() as nat) == pow10(pre.len() as nat) * 10);
        assert(digits_val(pre) * 10 <= (pow10(pre.len() as nat) - 1) * 10) by (nonlinear_arith)
            requires
                digits_val(pre) <= pow10(pre.len() as nat) - 1,
        ;
    }
}

/// Small bounds on the value of a short digit run.
pub proof fn lemma_digits_val_small(s: Seq<char>)
    requires
        all_digits(s),
        s.len() <= 6,
    ensures
        0 <= digits_val(s) <= 999999,
        s.len() <= 3 ==> digits_val(s) <= 999,
        s.len() <= 2 ==> digits_val(s) <= 99,
{
    lemma_digits_bound_n(s);
    lemma_pow10_mono(s.len() as nat, 6);
    reveal_with_fuel(pow10, 7);
    if s.len() <= 3 {
        lemma_pow10_mono(s.len() as nat, 3);
    }
    if s.len() <= 2 {
        lemma_pow10_mono(s.len() as nat, 2);
    }
}

pub open spec fn pow10(n: nat) -> int
    decreases n,
{
    if n == 0 {
        1
    } else {
        10 * pow10((n - 1) as nat)
    }
}

pub proof fn lemma_pow10_17()
    ensures
        pow10(17) == 100000000000000000,
{
    reveal_with_fuel(pow10, 18);
}

/// Render an unsigned integer in decimal.
pub fn u64_to_string(x: u64) -> (r: String)
    ensures
        r@ == dec_str(x as nat),
{
    let mut digits: Vec<char> = Vec::new();
    let mut v: u64 = x;
    if v == 0 {
        let mut r = String::new();
        push_char(&mut r, '0');
        proof {
            assert(r@ =~= dec_str(0));
        }
        return r;
    }
    while v > 0
        invariant
            x > 0,
            v <= x,
            v > 0 ==> rev_digits_ok(v as nat, digits@, x as nat),
            v == 0 ==> digits@ =~= dec_str(x as nat).reverse(),
        decreases v,
    {
        let d = (v % 10) as u8;
        let c = (d + 48) as char;
        proof {
            lemma_dec_str_step(v as nat, digits@, x as nat);
        }
        digits.push(c);
        v = v / 10;
    }
    let mut r = String::new();
    let mut i: usize = digits.len();
    while i > 0
        invariant
            i <= digits@.len(),
            r@ == digits@.reverse().subrange(0, (digits@.len() - i) as int),
        decreases i,
    {
        i = i - 1;
        push_char(&mut r, digits[i]);
        proof {
            assert(digits@.reverse()[(digits@.len() - i - 1) as int] == digits@[i as int]);
            assert(r@ =~= digits@.reverse().subrange(0, (digits@.len() - i) as int));
        }
    }
    proof {
        assert(digits@.reverse().subrange(0, digits@.len() as int) =~= digits@.reverse());
        assert(dec_str(x as nat).reverse().reverse() =~= dec_str(x as nat));
    }
    r
}

/// Decimal text of a natural number, most significant digit first.
pub open spec fn dec_str(n: nat) -> Seq<char>
    decreases n,
{
    if n < 10 {
        seq![((n + 48) as char)]
    } else {
        dec_str(n / 10) + seq![(((n % 10) + 48) as char)]
    }
}

spec fn rev_digits_ok(v: nat, digits: Seq<char>, x: nat) -> bool {
    dec_str(x) == dec_str(v) + digits.reverse()
}

proof fn lemma_dec_str_step(v: nat, digits: Seq<char>, x: nat)
    requires
        v > 0,
        rev_digits_ok(v, digits, x),
    ensures
        v / 10 > 0 ==> rev_digits_ok(v / 10, digits.push((((v % 10) + 48) as char)), x),
        v / 10 == 0 ==> digits.push((((v % 10) + 48) as char)) =~= dec_str(x).reverse(),
{
    let c = (((v % 10) + 48) as char);
    if v / 10 > 0 {
        assert(dec_str(v) =~= dec_str(v / 10) + seq![c]);
        assert(digits.push(c).reverse() =~= seq![c] + digits.reverse());
        assert(dec_str(v / 10) + digits.push(c).reverse() =~= dec_str(v / 10) + seq![c]
            + digits.reverse());
    } else {
        assert(v < 10);
        assert(dec_str(v) =~= seq![c]);
        assert(dec_str(x) =~= seq![c] + digits.reverse());
        assert(digits.push(c).reverse() =~= seq![c] + digits.reverse());
        assert(dec_str(x).reverse().reverse() =~= dec_str(x));
        assert(digits.push(c) =~= dec_str(x).reverse());
    }
}

/// Whether a string starts with a prefix.
pub fn str_starts_with(s: &str, p: &str) -> (r: bool)
    ensures
        r == (s@.len() >= p@.len() && s@.subrange(0, p@.len() as int) == p@),
{
    let ns: usize = s.unicode_len();
    let np: usize = p.unicode_len();
    if ns < np {
        return false;
    }
    let mut i: usize = 0;
    while i < np
        invariant
            np <= ns,
            ns == s@.len(),
            np == p@.len(),
            i <= np,
            forall|j: int| 0 <= j < i ==> s@[j] == p@[j],
        decreases np - i,
    {
        if s.get_char(i) != p.get_char(i) {
            return false;
        }
        i = i + 1;
    }
    proof {
        assert(s@.subrange(0, p@.len() as int) =~= p@);
    }
    true
}

/// Append a string slice onto an owned string.
pub fn append_str(s: &mut String, t: &str)
    ensures
        final(s)@ == old(s)@ + t@,
{
    s.append(t);
}

} // verus!
