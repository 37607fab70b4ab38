//! Decimal text: a spec-level model of digit strings and their numeric
//! values, together with verified helpers that scan digit runs and render
//! numbers as decimal text.

use vstd::prelude::*;
use vstd::string::{StrSliceExecFns, StringExecFns};

verus! {

/// `c` is one of the ten ASCII decimal digits.
pub open spec fn char_is_digit(c: char) -> bool {
    48 <= (c as u32) <= 57
}

/// Numeric value of a digit character.
pub open spec fn digit_of(c: char) -> nat {
    ((c as u32) - 48) as nat
}

/// The digit character for a value below ten.
pub open spec fn digit_char(d: nat) -> char {
    if d == 0 {
        '0'
    } else if d == 1 {
        '1'
    } else if d == 2 {
        '2'
    } else if d == 3 {
        '3'
    } else if d == 4 {
        '4'
    } else if d == 5 {
        '5'
    } else if d == 6 {
        '6'
    } else if d == 7 {
        '7'
    } else if d == 8 {
        '8'
    } else {
        '9'
    }
}

/// Every character of `s` is a decimal digit.
pub open spec fn all_digits(s: Seq<char>) -> bool {
    forall|i: int| 0 <= i < s.len() ==> char_is_digit(#[trigger] s[i])
}

/// Value of a digit string read in base ten, most significant digit first.
pub open spec fn digits_val(s: Seq<char>) -> nat
    decreases s.len(),
{
    if s.len() == 0 {
        0
    } else {
        10 * digits_val(s.drop_last()) + digit_of(s.last())
    }
}

/// Ten to the `n`.
pub open spec fn pow10(n: nat) -> nat
    decreases n,
{
    if n == 0 {
        1
    } else {
        10 * pow10((n - 1) as nat)
    }
}

/// Canonical decimal rendering of `n`: no sign, no leading zero except for
/// `n == 0` itself.
pub open spec fn dec_rep(n: nat) -> Seq<char>
    decreases n,
{
    if n < 10 {
        seq![digit_char(n)]
    } else {
        dec_rep(n / 10).push(digit_char(n % 10))
    }
}

/// Canonical decimal rendering of an integer, with a leading `-` when
/// negative.
pub open spec fn int_rep(v: int) -> Seq<char> {
    if v < 0 {
        seq!['-'] + dec_rep((-v) as nat)
    } else {
        dec_rep(v as nat)
    }
}

pub proof fn lemma_digit_char_val(d: nat)
    requires
        d < 10,
    ensures
        char_is_digit(digit_char(d)),
        digit_of(digit_char(d)) == d,
{
}

/// The canonical rendering is a non-empty digit run whose value is the
/// rendered number.
pub proof fn lemma_dec_rep_props(n: nat)
    ensures
        dec_rep(n).len() >= 1,
        all_digits(dec_rep(n)),
        digits_val(dec_rep(n)) == n,
    decreases n,
{
    if n < 10 {
        lemma_digit_char_val(n);
        assert(dec_rep(n) =~= seq![digit_char(n)]);
        assert(dec_rep(n).drop_last() =~= Seq::<char>::empty());
        assert(digits_val(dec_rep(n)) == 10 * digits_val(Seq::<char>::empty()) + digit_of(
            digit_char(n),
        ));
    } else {
        lemma_dec_rep_props(n / 10);
        lemma_digit_char_val(n % 10);
        let rec = dec_rep(n / 10);
        let whole = rec.push(digit_char(n % 10));
        assert(whole.drop_last() =~= rec);
        assert(whole.last() == digit_char(n % 10));
        assert(digits_val(whole) == 10 * (n / 10) + n % 10);
        assert(forall|i: int|
            0 <= i < whole.len() ==> char_is_digit(#[trigger] whole[i])) by {
            assert(forall|i: int| 0 <= i < rec.len() ==> char_is_digit(#[trigger] rec[i]));
        }
    }
}

/// A run of `len` digits is worth less than `pow10(len)`.
pub proof fn lemma_digits_val_bound(s: Seq<char>)
    requires
        all_digits(s),
    ensures
        digits_val(s) < pow10(s.len()),
    decreases s.len(),
{
    if s.len() == 0 {
    } else {
        assert(all_digits(s.drop_last())) by {
            assert(forall|i: int|
                0 <= i < s.drop_last().len() ==> char_is_digit(#[trigger] s.drop_last()[i]))
                by {
                assert(forall|i: int|
                    0 <= i < s.drop_last().len() ==> s.drop_last()[i] == s[i]);
            }
        }
        lemma_digits_val_bound(s.drop_last());
        assert(char_is_digit(s.last()));
        assert(digit_of(s.last()) <= 9);
    }
}

/// Base-ten place value of concatenated digit runs.
pub proof fn lemma_digits_val_concat(a: Seq<char>, b: Seq<char>)
    ensures
        digits_val(a + b) == digits_val(a) * pow10(b.len()) + digits_val(b),
    decreases b.len(),
{
    if b.len() == 0 {
        assert(a + b =~= a);
        assert(digits_val(a) * 1 == digits_val(a)) by (nonlinear_arith);
    } else {
        lemma_digits_val_concat(a, b.drop_last());
        assert((a + b).drop_last() =~= a + b.drop_last());
        assert((a + b).last() == b.last());
        let va = digits_val(a);
        let p = pow10((b.len() - 1) as nat);
        assert(digits_val(a + b) == 10 * (va * p + digits_val(b.drop_last())) + digit_of(
            b.last(),
        ));
        assert(10 * (va * p + digits_val(b.drop_last())) == va * (10 * p) + 10 * digits_val(
            b.drop_last(),
        )) by (nonlinear_arith);
        assert(pow10(b.len()) == 10 * p);
    }
}

/// Two-character zero-padded rendering for values below ten; the plain
/// rendering otherwise.
pub open spec fn pad2_rep(n: nat) -> Seq<char> {
    if n < 10 {
        seq!['0'] + dec_rep(n)
    } else {
        dec_rep(n)
    }
}

/// `digits_val` saturated at `cap`.
pub open spec fn capped_val(s: Seq<char>, cap: nat) -> nat {
    if digits_val(s) <= cap {
        digits_val(s)
    } else {
        cap
    }
}

/// The padded rendering is a digit run of at least two characters (exactly
/// two below one hundred) whose value is the rendered number.
pub proof fn lemma_pad2_props(n: nat)
    ensures
        digits_val(pad2_rep(n)) == n,
        all_digits(pad2_rep(n)),
        pad2_rep(n).len() >= 2,
        n < 100 ==> pad2_rep(n).len() == 2,
{
    lemma_dec_rep_props(n);
    if n < 10 {
        let z = seq!['0'];
        lemma_digits_val_concat(z, dec_rep(n));
        assert(digits_val(z) == 0) by {
            assert(digits_val(Seq::<char>::empty()) == 0);
            assert(z.drop_last() =~= Seq::<char>::empty());
            assert(digits_val(z) == 10 * digits_val(z.drop_last()) + digit_of(z.last()));
        }
        assert(dec_rep(n).len() == 1);
        assert(pow10(1) == 10) by {
            assert(pow10(0) == 1);
        }
        assert(forall|i: int|
            0 <= i < pad2_rep(n).len() ==> char_is_digit(#[trigger] pad2_rep(n)[i])) by {
            assert(char_is_digit('0'));
            assert(forall|i: int|
                0 <= i < dec_rep(n).len() ==> char_is_digit(#[trigger] dec_rep(n)[i]));
        }
    } else {
        lemma_dec_rep_props(n / 10);
        if n < 100 {
            assert(n / 10 < 10);
            assert(dec_rep(n / 10).len() == 1);
        }
    }
}

/// The one-character string for a digit value.
fn digit_str(d: u8) -> (r: &'static str)
    requires
        d < 10,
    ensures
        r@ == seq![digit_char(d as nat)],
{
    let r = if d == 0 {
        "0"
    } else if d == 1 {
        "1"
    } else if d == 2 {
        "2"
    } else if d == 3 {
        "3"
    } else if d == 4 {
        "4"
    } else if d == 5 {
        "5"
    } else if d == 6 {
        "6"
    } else if d == 7 {
        "7"
    } else if d == 8 {
        "8"
    } else {
        "9"
    };
    proof {
        reveal_strlit("0");
        reveal_strlit("1");
        reveal_strlit("2");
        reveal_strlit("3");
        reveal_strlit("4");
        reveal_strlit("5");
        reveal_strlit("6");
        reveal_strlit("7");
        reveal_strlit("8");
        reveal_strlit("9");
        assert(r@ =~= seq![digit_char(d as nat)]);
    }
    r
}

/// Appends the canonical decimal rendering of `n` to `out`.
pub fn push_dec_u64(out: &mut String, n: u64)
    ensures
        final(out)@ == old(out)@ + dec_rep(n as nat),
    decreases n,
{
    if n >= 10 {
        push_dec_u64(out, n / 10);
    }
    let ghost mid = out@;
    let d = (n % 10) as u8;
    out.append(digit_str(d));
    proof {
        if n < 10 {
            assert(out@ =~= old(out)@ + dec_rep(n as nat));
        } else {
            assert(mid == old(out)@ + dec_rep((n / 10) as nat));
            assert(dec_rep(n as nat) == dec_rep((n / 10) as nat).push(
                digit_char((n % 10) as nat),
            ));
            assert(out@ =~= old(out)@ + dec_rep(n as nat));
        }
    }
}

/// Appends the two-digit zero-padded rendering of `n` to `out`.
pub fn push_pad2(out: &mut String, n: u64)
    ensures
        final(out)@ == old(out)@ + pad2_rep(n as nat),
{
    if n < 10 {
        out.append("0");
        proof {
            reveal_strlit("0");
        }
    }
    push_dec_u64(out, n);
    proof {
        assert(out@ =~= old(out)@ + pad2_rep(n as nat));
    }
}

/// The canonical decimal rendering of a signed value as a fresh string.
pub fn i64_dec_string(v: i64) -> (r: String)
    ensures
        r@ == int_rep(v as int),
{
    let mut out = String::new();
    if v < 0 {
        out.append("-");
        proof {
            reveal_strlit("-");
        }
        let mag: u64 = ((-(v + 1)) as u64) + 1;
        assert(mag as int == -(v as int));
        push_dec_u64(&mut out, mag);
        proof {
            assert(out@ =~= int_rep(v as int));
        }
    } else {
        push_dec_u64(&mut out, v as u64);
        proof {
            assert(out@ =~= int_rep(v as int));
        }
    }
    out
}

/// Reads the characters of `s` between `from` and `to` as a digit run,
/// saturating the value at `cap`; `None` when a non-digit stands in the
/// range.
pub fn digits_val_capped(s: &str, from: usize, to: usize, cap: u128) -> (r: Option<u128>)
    requires
        from <= to <= s@.len(),
        cap <= 0x1_0000_0000_0000_0000u128,
    ensures
        r is Some <==> all_digits(s@.subrange(from as int, to as int)),
        r is Some ==> r->0 == capped_val(s@.subrange(from as int, to as int), cap as nat),
{
    let mut i = from;
    let mut acc: u128 = 0;
    while i < to
        invariant
            from <= i <= to <= s@.len(),
            cap <= 0x1_0000_0000_0000_0000u128,
            all_digits(s@.subrange(from as int, i as int)),
            acc == capped_val(s@.subrange(from as int, i as int), cap as nat),
        decreases to - i,
    {
        let c = s.get_char(i);
        let u = c as u32;
        if u < 48 || u > 57 {
            proof {
                assert(s@.subrange(from as int, to as int)[i - from] == s@[i as int]);
            }
            return None;
        }
        let d = (u - 48) as u128;
        let ghost prefix = s@.subrange(from as int, i as int);
        let ghost grown = s@.subrange(from as int, i + 1 as int);
        acc = 10 * acc + d;
        if acc > cap {
            acc = cap;
        }
        proof {
            assert(grown.drop_last() =~= prefix);
            assert(grown.last() == s@[i as int]);
            assert(digits_val(grown) == 10 * digits_val(prefix) + digit_of(s@[i as int]));
            assert(forall|k: int| 0 <= k < grown.len() ==> char_is_digit(#[trigger] grown[k]));
        }
        i = i + 1;
    }
    proof {
        assert(s@.subrange(from as int, i as int) =~= s@.subrange(from as int, to as int));
    }
    Some(acc)
}

} // verus!
