//! Character-level string utilities: lexicographic comparison, prefix and
//! suffix tests, ASCII lowercasing, and decimal rendering of integers.
//!
//! Filenames in the queue are compared as strings, so the claim order of the
//! runner rests on the lemmas proved here about `lex_lt` and the zero-padded
//! decimal encoding.

use vstd::prelude::*;
use vstd::string::*;

verus! {

/// Relies on String::push: appends one character at the end of the string.
#[verifier::external_body]
pub fn push_char(s: &mut String, c: char)
    ensures
        final(s)@ == old(s)@.push(c),
{
    s.push(c);
}

/// Strict lexicographic order on character sequences, comparing scalar
/// values position by position; a proper prefix sorts before its extension.
pub open spec fn lex_lt(a: Seq<char>, b: Seq<char>) -> bool
    decreases a.len(),
{
    if b.len() == 0 {
        false
    } else if a.len() == 0 {
        true
    } else if a[0] == b[0] {
        lex_lt(a.skip(1), b.skip(1))
    } else {
        (a[0] as u32) < (b[0] as u32)
    }
}

/// Decides `lex_lt` on string slices.
pub fn str_lt(a: &str, b: &str) -> (r: bool)
    ensures
        r == lex_lt(a@, b@),
    decreases a@.len(),
{
    let alen = a.unicode_len();
    let blen = b.unicode_len();
    if blen == 0 {
        false
    } else if alen == 0 {
        true
    } else {
        let ca = a.get_char(0);
        let cb = b.get_char(0);
        if (ca as u32) == (cb as u32) {
            proof {
                vstd::utf8::char_u32_cast(ca, ca as u32);
                vstd::utf8::char_u32_cast(cb, cb as u32);
            }
            let ra = a.substring_char(1, alen);
            let rb = b.substring_char(1, blen);
            proof {
                assert(a@.subrange(1, alen as int) =~= a@.skip(1));
                assert(b@.subrange(1, blen as int) =~= b@.skip(1));
            }
            str_lt(ra, rb)
        } else {
            (ca as u32) < (cb as u32)
        }
    }
}

/// Decides view equality of two string slices.
pub fn str_eq(a: &str, b: &str) -> (r: bool)
    ensures
        r == (a@ == b@),
{
    let alen = a.unicode_len();
    let blen = b.unicode_len();
    if alen != blen {
        return false;
    }
    let mut i: usize = 0;
    while i < alen
        invariant
            alen == a@.len(),
            blen == b@.len(),
            alen == blen,
            i <= alen,
            forall|j: int| 0 <= j < i ==> a@[j] == b@[j],
        decreases alen - i,
    {
        let ca = a.get_char(i);
        let cb = b.get_char(i);
        if (ca as u32) != (cb as u32) {
            return false;
        }
        proof {
            vstd::utf8::char_u32_cast(ca, ca as u32);
            vstd::utf8::char_u32_cast(cb, cb as u32);
        }
        i = i + 1;
    }
    proof {
        assert(a@ =~= b@);
    }
    true
}

/// Decides whether `p@` is a prefix of `s@`.
pub fn str_starts_with(s: &str, p: &str) -> (r: bool)
    ensures
        r == p@.is_prefix_of(s@),
{
    let slen = s.unicode_len();
    let plen = p.unicode_len();
    if plen > slen {
        return false;
    }
    let mut i: usize = 0;
    while i < plen
        invariant
            slen == s@.len(),
            plen == p@.len(),
            plen <= slen,
            i <= plen,
            forall|j: int| 0 <= j < i ==> s@[j] == p@[j],
        decreases plen - i,
    {
        let cs = s.get_char(i);
        let cp = p.get_char(i);
        if (cs as u32) != (cp as u32) {
            return false;
        }
        proof {
            vstd::utf8::char_u32_cast(cs, cs as u32);
            vstd::utf8::char_u32_cast(cp, cp as u32);
        }
        i = i + 1;
    }
    proof {
        assert(p@ =~= s@.subrange(0, p@.len() as int));
    }
    true
}

/// Decides whether `p@` is a suffix of `s@`.
pub fn str_ends_with(s: &str, p: &str) -> (r: bool)
    ensures
        r == p@.is_suffix_of(s@),
{
    let slen = s.unicode_len();
    let plen = p.unicode_len();
    if plen > slen {
        return false;
    }
    let off = slen - plen;
    let mut i: usize = 0;
    while i < plen
        invariant
            slen == s@.len(),
            plen == p@.len(),
            plen <= slen,
            off == slen - plen,
            i <= plen,
            forall|j: int| 0 <= j < i ==> s@[off + j] == p@[j],
        decreases plen - i,
    {
        let cs = s.get_char(off + i);
        let cp = p.get_char(i);
        if (cs as u32) != (cp as u32) {
            return false;
        }
        proof {
            vstd::utf8::char_u32_cast(cs, cs as u32);
            vstd::utf8::char_u32_cast(cp, cp as u32);
        }
        i = i + 1;
    }
    proof {
        assert(p@ =~= s@.subrange(s@.len() - p@.len(), s@.len() as int));
    }
    true
}

/// Appends every character of `t` to `s`.
pub fn append_str(s: &mut String, t: &str)
    ensures
        final(s)@ == old(s)@ + t@,
{
    let tlen = t.unicode_len();
    let mut i: usize = 0;
    while i < tlen
        invariant
            tlen == t@.len(),
            i <= tlen,
            s@ =~= old(s)@ + t@.subrange(0, i as int),
        decreases tlen - i,
    {
        let c = t.get_char(i);
        push_char(s, c);
        proof {
            assert(old(s)@ + t@.subrange(0, i as int) + seq![t@[i as int]] =~= old(s)@
                + t@.subrange(0, i + 1));
        }
        i = i + 1;
    }
    proof {
        assert(t@.subrange(0, t@.len() as int) =~= t@);
    }
}

} // verus!

verus! {

/// The character for a single decimal digit.
pub open spec fn spec_dec_digit(d: nat) -> char {
    if d == 0 {
        '0'
    } else if d == 1 {
        '1'
    } else if d == 2 {
        '2'
    } else if d == 3 {
        '3'
    } else if d == 4 {
        '4'
    } else if d == 5 {
        '5'
    } else if d == 6 {
        '6'
    } else if d == 7 {
        '7'
    } else if d == 8 {
        '8'
    } else {
        '9'
    }
}

pub fn dec_digit(d: u64) -> (c: char)
    requires
        d < 10,
    ensures
        c == spec_dec_digit(d as nat),
{
    match d {
        0 => '0',
        1 => '1',
        2 => '2',
        3 => '3',
        4 => '4',
        5 => '5',
        6 => '6',
        7 => '7',
        8 => '8',
        _ => '9',
    }
}

/// Decimal rendering of a natural number, most significant digit first,
/// with no leading zeros (`0` renders as `"0"`).
pub open spec fn dec_chars(n: nat) -> Seq<char>
    decreases n,
{
    if n < 10 {
        seq![spec_dec_digit(n)]
    } else {
        dec_chars(n / 10).push(spec_dec_digit(n % 10))
    }
}

/// A run of `k` zero characters.
pub open spec fn zeros(k: nat) -> Seq<char> {
    Seq::new(k, |i| '0')
}

/// The decimal rendering of `n` left-padded with zeros to 16 characters;
/// numbers of more than 16 digits render unpadded.
pub open spec fn spec_seq16(n: nat) -> Seq<char> {
    if dec_chars(n).len() >= 16 {
        dec_chars(n)
    } else {
        zeros((16 - dec_chars(n).len()) as nat) + dec_chars(n)
    }
}

/// The digits of `n`, least significant first.
fn dec_digits_rev(n: u64) -> (v: Vec<char>)
    ensures
        v@.reverse() =~= dec_chars(n as nat),
        v@.len() == dec_chars(n as nat).len(),
{
    let mut v: Vec<char> = Vec::new();
    let mut m: u64 = n;
    loop
        invariant_except_break
            dec_chars(n as nat) =~= dec_chars(m as nat) + v@.reverse(),
        ensures
            dec_chars(n as nat) =~= v@.reverse(),
        decreases m,
    {
        let d = dec_digit(m % 10);
        let ghost old_v = v@;
        v.push(d);
        proof {
            assert(v@.reverse() =~= seq![d] + old_v.reverse());
        }
        if m < 10 {
            proof {
                assert(dec_chars(m as nat) =~= seq![spec_dec_digit((m % 10) as nat)]);
                assert(dec_chars(n as nat) =~= v@.reverse());
            }
            break;
        }
        proof {
            assert(dec_chars(m as nat) =~= dec_chars((m / 10) as nat).push(
                spec_dec_digit((m % 10) as nat),
            ));
            assert(dec_chars((m / 10) as nat).push(spec_dec_digit((m % 10) as nat)) + old_v.reverse()
                =~= dec_chars((m / 10) as nat) + v@.reverse());
        }
        m = m / 10;
    }
    v
}

/// Builds the string whose characters are `v` reversed.
fn rev_chars_to_string(v: Vec<char>) -> (r: String)
    ensures
        r@ =~= v@.reverse(),
{
    let ghost orig = v@;
    let mut v = v;
    let mut s = String::new();
    loop
        invariant
            s@ + v@.reverse() =~= orig.reverse(),
        ensures
            s@ =~= orig.reverse(),
        decreases v@.len(),
    {
        let ghost prev = v@;
        match v.pop() {
            Some(c) => {
                proof {
                    assert(prev.reverse()[0] == c);
                    assert(prev.reverse().skip(1) =~= v@.reverse());
                    assert(s@.push(c) + v@.reverse() =~= s@ + prev.reverse());
                }
                push_char(&mut s, c);
            },
            None => {
                proof {
                    assert(v@.reverse() =~= Seq::<char>::empty());
                    assert(s@ + v@.reverse() =~= s@);
                }
                break;
            },
        }
    }
    s
}

/// Renders `n` in decimal.
pub fn u64_to_string(n: u64) -> (r: String)
    ensures
        r@ =~= dec_chars(n as nat),
{
    let v = dec_digits_rev(n);
    rev_chars_to_string(v)
}

/// Renders `n` in decimal, left-padded with zeros to 16 characters.
pub fn format_seq16(n: u64) -> (r: String)
    ensures
        r@ =~= spec_seq16(n as nat),
{
    let mut v = dec_digits_rev(n);
    let ghost dlen = dec_chars(n as nat).len();
    while v.len() < 16
        invariant
            v@.len() >= dlen,
            dlen >= 16 ==> v@.len() == dlen,
            dlen < 16 ==> v@.len() <= 16,
            v@.reverse() =~= zeros((v@.len() - dlen) as nat) + dec_chars(n as nat),
        decreases 16 - v@.len(),
    {
        let ghost old_v = v@;
        v.push('0');
        proof {
            assert(v@.reverse() =~= seq!['0'] + old_v.reverse());
            assert(seq!['0'] + (zeros((old_v.len() - dlen) as nat) + dec_chars(n as nat)) =~= zeros(
                (v@.len() - dlen) as nat,
            ) + dec_chars(n as nat));
        }
    }
    let r = rev_chars_to_string(v);
    proof {
        if dlen >= 16 {
            assert(v@.len() == dlen);
            assert(zeros(0) + dec_chars(n as nat) =~= dec_chars(n as nat));
        } else {
            assert(v@.len() == 16);
        }
    }
    r
}

} // verus!

verus! {

use vstd::arithmetic::div_mod::{
    lemma_multiply_divide_lt, lemma_div_is_ordered, lemma_fundamental_div_mod, lemma_small_mod,
    lemma_basic_div,
};

/// Powers of ten.
pub open spec fn pow10(k: nat) -> nat
    decreases k,
{
    if k == 0 {
        1
    } else {
        10 * pow10((k - 1) as nat)
    }
}

/// The last `w` decimal digits of `n`, zero-padded at the left when `n`
/// has fewer than `w` digits.
pub open spec fn padded_chars(n: nat, w: nat) -> Seq<char>
    decreases w,
{
    if w == 0 {
        Seq::empty()
    } else {
        padded_chars(n / 10, (w - 1) as nat).push(spec_dec_digit(n % 10))
    }
}

proof fn lemma_padded_len(n: nat, w: nat)
    ensures
        padded_chars(n, w).len() == w,
    decreases w,
{
    if w > 0 {
        lemma_padded_len(n / 10, (w - 1) as nat);
    }
}

proof fn lemma_padded_zero(w: nat)
    ensures
        padded_chars(0, w) =~= zeros(w),
    decreases w,
{
    if w > 0 {
        lemma_basic_div(0, 10);
        lemma_small_mod(0, 10);
        lemma_padded_zero((w - 1) as nat);
        assert(padded_chars(0, w) =~= zeros((w - 1) as nat).push('0'));
        assert(zeros((w - 1) as nat).push('0') =~= zeros(w));
    }
}

/// For `n < 10^w`, the fixed-width rendering is the plain decimal
/// rendering preceded by zeros.
proof fn lemma_padded_eq(n: nat, w: nat)
    requires
        w >= 1,
        n < pow10(w),
    ensures
        dec_chars(n).len() <= w,
        padded_chars(n, w) =~= zeros((w - dec_chars(n).len()) as nat) + dec_chars(n),
    decreases w,
{
    if n < 10 {
        lemma_basic_div(n as int, 10);
        lemma_small_mod(n, 10);
        lemma_padded_zero((w - 1) as nat);
        assert(padded_chars(n, w) =~= zeros((w - 1) as nat).push(spec_dec_digit(n)));
        assert(zeros((w - 1) as nat).push(spec_dec_digit(n)) =~= zeros((w - 1) as nat) + dec_chars(
            n,
        ));
    } else {
        assert(w >= 2) by {
            if w == 1 {
                assert(pow10(1) == 10 * pow10(0));
            }
        }
        lemma_multiply_divide_lt(n as int, 10, pow10((w - 1) as nat) as int);
        lemma_padded_eq(n / 10, (w - 1) as nat);
        assert(dec_chars(n) =~= dec_chars(n / 10).push(spec_dec_digit(n % 10)));
        assert(padded_chars(n, w) =~= (zeros(((w - 1) - dec_chars(n / 10).len()) as nat)
            + dec_chars(n / 10)).push(spec_dec_digit(n % 10)));
        assert((zeros(((w - 1) - dec_chars(n / 10).len()) as nat) + dec_chars(n / 10)).push(
            spec_dec_digit(n % 10),
        ) =~= zeros((w - dec_chars(n).len()) as nat) + dec_chars(n));
    }
}

proof fn lemma_lex_push_lt(a: Seq<char>, b: Seq<char>, x: char, y: char)
    requires
        a.len() == b.len(),
        lex_lt(a, b),
    ensures
        lex_lt(a.push(x), b.push(y)),
    decreases a.len(),
{
    if a.len() > 0 {
        if a[0] == b[0] {
            lemma_lex_push_lt(a.skip(1), b.skip(1), x, y);
            assert(a.push(x).skip(1) =~= a.skip(1).push(x));
            assert(b.push(y).skip(1) =~= b.skip(1).push(y));
        }
    }
}

proof fn lemma_lex_push_eq(a: Seq<char>, x: char, y: char)
    requires
        (x as u32) < (y as u32),
    ensures
        lex_lt(a.push(x), a.push(y)),
    decreases a.len(),
{
    if a.len() == 0 {
        assert(a.push(x) =~= seq![x]);
        assert(a.push(y) =~= seq![y]);
        assert(x != y) by {
            vstd::utf8::char_u32_cast(x, x as u32);
            vstd::utf8::char_u32_cast(y, y as u32);
        }
    } else {
        lemma_lex_push_eq(a.skip(1), x, y);
        assert(a.push(x).skip(1) =~= a.skip(1).push(x));
        assert(a.push(y).skip(1) =~= a.skip(1).push(y));
    }
}

proof fn lemma_digit_code(d: nat)
    requires
        d < 10,
    ensures
        spec_dec_digit(d) as u32 == 48 + d,
{
}

proof fn lemma_padded_lt(n1: nat, n2: nat, w: nat)
    requires
        n1 < n2,
        n2 < pow10(w),
    ensures
        lex_lt(padded_chars(n1, w), padded_chars(n2, w)),
    decreases w,
{
    assert(w >= 1);
    lemma_fundamental_div_mod(n1 as int, 10);
    lemma_fundamental_div_mod(n2 as int, 10);
    lemma_div_is_ordered(n1 as int, n2 as int, 10);
    lemma_multiply_divide_lt(n2 as int, 10, pow10((w - 1) as nat) as int);
    lemma_padded_len(n1 / 10, (w - 1) as nat);
    lemma_padded_len(n2 / 10, (w - 1) as nat);
    vstd::arithmetic::div_mod::lemma_mod_bound(n1 as int, 10);
    vstd::arithmetic::div_mod::lemma_mod_bound(n2 as int, 10);
    if n1 / 10 < n2 / 10 {
        lemma_padded_lt(n1 / 10, n2 / 10, (w - 1) as nat);
        lemma_lex_push_lt(
            padded_chars(n1 / 10, (w - 1) as nat),
            padded_chars(n2 / 10, (w - 1) as nat),
            spec_dec_digit(n1 % 10),
            spec_dec_digit(n2 % 10),
        );
    } else {
        assert(n1 / 10 == n2 / 10);
        assert(n1 % 10 < n2 % 10);
        lemma_digit_code(n1 % 10);
        lemma_digit_code(n2 % 10);
        lemma_lex_push_eq(
            padded_chars(n1 / 10, (w - 1) as nat),
            spec_dec_digit(n1 % 10),
            spec_dec_digit(n2 % 10),
        );
    }
}

/// A strict lexicographic difference within a common-length prefix
/// survives appending arbitrary tails.
pub proof fn lemma_lex_append(a: Seq<char>, b: Seq<char>, s: Seq<char>, t: Seq<char>)
    requires
        a.len() == b.len(),
        lex_lt(a, b),
    ensures
        lex_lt(a + s, b + t),
    decreases a.len(),
{
    if a.len() > 0 {
        assert((a + s)[0] == a[0]);
        assert((b + t)[0] == b[0]);
        if a[0] == b[0] {
            lemma_lex_append(a.skip(1), b.skip(1), s, t);
            assert((a + s).skip(1) =~= a.skip(1) + s);
            assert((b + t).skip(1) =~= b.skip(1) + t);
        }
    }
}

/// Sixteen-digit zero-padded decimal renderings sort lexicographically in
/// numeric order, as long as the numbers fit in sixteen digits.
pub proof fn lemma_seq16_order(n1: u64, n2: u64)
    requires
        n1 < n2,
        n2 < 10_000_000_000_000_000,
    ensures
        spec_seq16(n1 as nat).len() == 16,
        spec_seq16(n2 as nat).len() == 16,
        lex_lt(spec_seq16(n1 as nat), spec_seq16(n2 as nat)),
{
    assert(pow10(16) == 10_000_000_000_000_000) by {
        reveal_with_fuel(pow10, 17);
    }
    lemma_padded_eq(n1 as nat, 16);
    lemma_padded_eq(n2 as nat, 16);
    lemma_padded_len(n1 as nat, 16);
    lemma_padded_len(n2 as nat, 16);
    lemma_padded_lt(n1 as nat, n2 as nat, 16);
    assert(padded_chars(n1 as nat, 16) =~= spec_seq16(n1 as nat));
    assert(padded_chars(n2 as nat, 16) =~= spec_seq16(n2 as nat));
}

} // verus!

verus! {

/// Non-strict lexicographic order.
pub open spec fn lex_leq(a: Seq<char>, b: Seq<char>) -> bool {
    !lex_lt(b, a)
}

} // verus!

verus! {

/// `lex_lt` is irreflexive.
pub proof fn lemma_lex_irrefl(a: Seq<char>)
    ensures
        !lex_lt(a, a),
    decreases a.len(),
{
    if a.len() > 0 {
        lemma_lex_irrefl(a.skip(1));
    }
}

/// `lex_lt` is transitive.
pub proof fn lemma_lex_trans(a: Seq<char>, b: Seq<char>, c: Seq<char>)
    requires
        lex_lt(a, b),
        lex_lt(b, c),
    ensures
        lex_lt(a, c),
    decreases a.len(),
{
    if a.len() > 0 {
        let a0 = a[0];
        let b0 = b[0];
        let c0 = c[0];
        vstd::utf8::char_u32_cast(a0, a0 as u32);
        vstd::utf8::char_u32_cast(b0, b0 as u32);
        vstd::utf8::char_u32_cast(c0, c0 as u32);
        if a0 == b0 && b0 == c0 {
            lemma_lex_trans(a.skip(1), b.skip(1), c.skip(1));
        }
    }
}

} // verus!
