//! Decimal rendering of integers and zero padding, as used in file names
//! and in `.npy` headers.

use vstd::prelude::*;
use vstd::string::*;

verus! {

/// The ASCII digit for `d` (`d < 10`).
pub open spec fn digit_char(d: int) -> char {
    if d == 0 { '0' }
    else if d == 1 { '1' }
    else if d == 2 { '2' }
    else if d == 3 { '3' }
    else if d == 4 { '4' }
    else if d == 5 { '5' }
    else if d == 6 { '6' }
    else if d == 7 { '7' }
    else if d == 8 { '8' }
    else { '9' }
}

/// The decimal representation of `n`, most significant digit first,
/// without leading zeros (`0` is written as a single `'0'`).
pub open spec fn spec_decimal(n: nat) -> Seq<char>
    decreases n,
{
    if n < 10 {
        seq![digit_char(n as int)]
    } else {
        spec_decimal(n / 10).push(digit_char((n % 10) as int))
    }
}

/// `s` padded on the left with `'0'` up to `width` characters; longer
/// strings are left as they are.
pub open spec fn pad_zeros(s: Seq<char>, width: nat) -> Seq<char> {
    if s.len() < width {
        Seq::new((width - s.len()) as nat, |i: int| '0') + s
    } else {
        s
    }
}

fn digit_str(d: u64) -> (s: &'static str)
    requires
        d < 10,
    ensures
        s@ == seq![digit_char(d as int)],
{
    proof {
        reveal_strlit("0");
        reveal_strlit("1");
        reveal_strlit("2");
        reveal_strlit("3");
        reveal_strlit("4");
        reveal_strlit("5");
        reveal_strlit("6");
        reveal_strlit("7");
        reveal_strlit("8");
        reveal_strlit("9");
    }
    if d == 0 { "0" }
    else if d == 1 { "1" }
    else if d == 2 { "2" }
    else if d == 3 { "3" }
    else if d == 4 { "4" }
    else if d == 5 { "5" }
    else if d == 6 { "6" }
    else if d == 7 { "7" }
    else if d == 8 { "8" }
    else { "9" }
}

/// Appends the decimal representation of `n` to `s`.
pub fn push_decimal(s: &mut String, n: u64)
    ensures
        final(s)@ == old(s)@ + spec_decimal(n as nat),
    decreases n,
{
    if n >= 10 {
        push_decimal(s, n / 10);
    }
    s.append(digit_str(n % 10));
    assert(final(s)@ =~= old(s)@ + spec_decimal(n as nat));
}

/// Appends `n` in decimal, padded on the left with zeros to `width` digits.
pub fn push_decimal_padded(s: &mut String, n: u64, width: u64)
    ensures
        final(s)@ == old(s)@ + pad_zeros(spec_decimal(n as nat), width as nat),
{
    let mut digits = String::new();
    push_decimal(&mut digits, n);
    let len = digits.as_str().unicode_len() as u64;
    let mut k: u64 = len;
    while k < width
        invariant
            len == spec_decimal(n as nat).len(),
            len <= k <= width || (len > width && k == len),
            s@ == old(s)@ + Seq::new((k - len) as nat, |i: int| '0'),
        decreases width - k,
    {
        s.append("0");
        proof { reveal_strlit("0"); }
        assert(s@ =~= old(s)@ + Seq::new((k + 1 - len) as nat, |i: int| '0'));
        k = k + 1;
    }
    s.append(digits.as_str());
    assert(final(s)@ =~= old(s)@ + pad_zeros(spec_decimal(n as nat), width as nat));
}


/// `10^k`.
pub open spec fn pow10(k: nat) -> nat
    decreases k,
{
    if k == 0 { 1 } else { 10 * pow10((k - 1) as nat) }
}

/// A decimal representation is never empty, and it begins with `'0'` only
/// when it is the single digit of zero.
pub proof fn lemma_decimal_first_digit(n: nat)
    ensures
        spec_decimal(n).len() >= 1,
        spec_decimal(n)[0] == '0' ==> n == 0 && spec_decimal(n).len() == 1,
    decreases n,
{
    if n >= 10 {
        lemma_decimal_first_digit(n / 10);
        assert(spec_decimal(n)[0] == spec_decimal(n / 10)[0]);
    }
}

/// Numbers below `10^k` have at most `k` digits (and at least one).
pub proof fn lemma_decimal_len_bound(n: nat, k: nat)
    requires
        n < pow10(k),
    ensures
        1 <= spec_decimal(n).len() <= if k == 0 { 1 } else { k },
    decreases n,
{
    lemma_decimal_first_digit(n);
    if n >= 10 {
        assert(k >= 2) by {
            if k == 0 {
            } else if k == 1 {
                assert(pow10(1) == 10 * pow10(0));
            }
        }
        assert(n / 10 < pow10((k - 1) as nat)) by {
            assert(pow10(k) == 10 * pow10((k - 1) as nat));
        }
        lemma_decimal_len_bound(n / 10, (k - 1) as nat);
    }
}

/// Different numbers have different decimal representations.
pub proof fn lemma_decimal_injective(a: nat, b: nat)
    ensures
        spec_decimal(a) == spec_decimal(b) ==> a == b,
    decreases a,
{
    if spec_decimal(a) == spec_decimal(b) {
        lemma_decimal_first_digit(a);
        lemma_decimal_first_digit(b);
        if a < 10 && b < 10 {
        } else if a >= 10 && b >= 10 {
            let da = spec_decimal(a);
            let db = spec_decimal(b);
            assert(da.drop_last() =~= spec_decimal(a / 10));
            assert(db.drop_last() =~= spec_decimal(b / 10));
            lemma_decimal_injective(a / 10, b / 10);
            assert(da.last() == digit_char((a % 10) as int));
            assert(db.last() == digit_char((b % 10) as int));
        } else if a < 10 {
            lemma_decimal_first_digit(b / 10);
        } else {
            lemma_decimal_first_digit(a / 10);
        }
    }
}

/// Zero-padding decimal representations to a common width keeps different
/// numbers apart.
pub proof fn lemma_padded_decimal_injective(a: nat, b: nat, width: nat)
    ensures
        pad_zeros(spec_decimal(a), width) == pad_zeros(spec_decimal(b), width) ==> a == b,
{
    let da = spec_decimal(a);
    let db = spec_decimal(b);
    let pa = pad_zeros(da, width);
    let pb = pad_zeros(db, width);
    lemma_decimal_first_digit(a);
    lemma_decimal_first_digit(b);
    if pa == pb {
        if da.len() == db.len() {
            assert(da =~= pa.subrange(pa.len() - da.len(), pa.len() as int));
            assert(db =~= pb.subrange(pb.len() - db.len(), pb.len() as int));
            lemma_decimal_injective(a, b);
        } else if da.len() < db.len() {
            assert(pa.len() == width);
            let i = width - db.len();
            assert(pb[i] == db[0]);
            assert(pa[i] == '0');
        } else {
            assert(pb.len() == width);
            let i = width - da.len();
            assert(pa[i] == da[0]);
            assert(pb[i] == '0');
        }
    }
}


/// Whether `c` is one of the ASCII digits.
pub open spec fn is_digit(c: char) -> bool {
    '0' <= c <= '9'
}

/// A decimal representation consists of digits only.
pub proof fn lemma_decimal_digits(n: nat)
    ensures
        forall|i: int| 0 <= i < spec_decimal(n).len() ==> is_digit(#[trigger] spec_decimal(n)[i]),
    decreases n,
{
    if n >= 10 {
        lemma_decimal_digits(n / 10);
        let d = spec_decimal(n);
        assert forall|i: int| 0 <= i < d.len() implies is_digit(#[trigger] d[i]) by {
            if i < d.len() - 1 {
                assert(d[i] == spec_decimal(n / 10)[i]);
            }
        }
    }
}


/// The number a string of decimal digits stands for, most significant digit
/// first (leading zeros add nothing).
pub open spec fn digits_value(s: Seq<char>) -> int
    decreases s.len(),
{
    if s.len() == 0 {
        0
    } else {
        digits_value(s.drop_last()) * 10 + (s.last() as int - '0' as int)
    }
}

proof fn lemma_digit_char_value(d: int)
    requires
        0 <= d < 10,
    ensures
        digit_char(d) as int - '0' as int == d,
{
    assert('0' as int == 48 && '1' as int == 49 && '2' as int == 50 && '3' as int == 51
        && '4' as int == 52 && '5' as int == 53 && '6' as int == 54 && '7' as int == 55
        && '8' as int == 56 && '9' as int == 57);
}

/// Reading the decimal representation of `n` back gives `n`.
pub proof fn lemma_decimal_value(n: nat)
    ensures
        digits_value(spec_decimal(n)) == n,
    decreases n,
{
    if n >= 10 {
        lemma_digit_char_value((n % 10) as int);
        lemma_decimal_value(n / 10);
        let d = spec_decimal(n);
        assert(d.drop_last() =~= spec_decimal(n / 10));
        assert(d.last() == digit_char((n % 10) as int));
        assert(digits_value(d) == digits_value(d.drop_last()) * 10 + (d.last() as int - '0' as int));
        assert((n / 10) * 10 + n % 10 == n);
    } else {
        lemma_digit_char_value(n as int);
        let d = spec_decimal(n);
        assert(d.drop_last() =~= Seq::<char>::empty());
        assert(digits_value(d.drop_last()) == 0);
        assert(digits_value(d) == digits_value(d.drop_last()) * 10 + (d.last() as int - '0' as int));
    }
}

proof fn lemma_zeros_prefix_value(k: nat, s: Seq<char>)
    ensures
        digits_value(Seq::new(k, |i: int| '0') + s) == digits_value(s) + digits_value(
            Seq::new(k, |i: int| '0'),
        ) * pow10(s.len()),
        digits_value(Seq::new(k, |i: int| '0')) == 0,
    decreases k + s.len(),
{
    let z = Seq::new(k, |i: int| '0');
    if s.len() == 0 {
        assert(z + s =~= z);
        if k > 0 {
            lemma_zeros_prefix_value((k - 1) as nat, s);
            assert(z.drop_last() =~= Seq::new((k - 1) as nat, |i: int| '0'));
        }
    } else {
        lemma_zeros_prefix_value(k, s.drop_last());
        assert((z + s).drop_last() =~= z + s.drop_last());
        assert(pow10(s.len()) == 10 * pow10(s.drop_last().len()));
    }
}

/// Zero padding does not change the number the digits stand for, and makes
/// the string exactly `width` long when the number has at most `width`
/// digits.
pub proof fn lemma_padded_decimal_value(n: nat, width: nat)
    ensures
        digits_value(pad_zeros(spec_decimal(n), width)) == n,
        spec_decimal(n).len() <= width ==> pad_zeros(spec_decimal(n), width).len() == width,
{
    lemma_decimal_value(n);
    let d = spec_decimal(n);
    if d.len() < width {
        lemma_zeros_prefix_value((width - d.len()) as nat, d);
    }
}

} // verus!
