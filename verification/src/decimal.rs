//! Decimal notation of natural numbers.
use vstd::prelude::*;

verus! {

/// The decimal digit of `d`, for `d` below ten.
pub open spec fn digit(d: nat) -> char {
    (48 + d) as char
}

/// The decimal notation of `n`, without leading zeros.
pub open spec fn decimal(n: nat) -> Seq<char>
    decreases n,
{
    if n < 10 {
        seq![digit(n)]
    } else {
        decimal(n / 10).push(digit(n % 10))
    }
}

/// The notation of `n` with zeros in front, up to `width` digits.
pub open spec fn padded(n: nat, width: nat) -> Seq<char> {
    let d = decimal(n);
    if d.len() < width {
        Seq::new((width - d.len()) as nat, |i: int| '0') + d
    } else {
        d
    }
}

fn digit_char(d: u8) -> (c: char)
    requires
        d < 10,
    ensures
        c == digit(d as nat),
{
    (48 + d) as char
}

/// Appends the decimal notation of `n` to `out`.
pub fn push_decimal(out: &mut String, n: u64)
    ensures
        final(out)@ == old(out)@ + decimal(n as nat),
    decreases n,
{
    if n >= 10 {
        push_decimal(out, n / 10);
    }
    out.push(digit_char((n % 10) as u8));
    assert(out@ =~= old(out)@ + decimal(n as nat));
}

/// The decimal notation of `n`.
pub fn to_decimal(n: u64) -> (r: String)
    ensures
        r@ == decimal(n as nat),
{
    let mut out = String::new();
    push_decimal(&mut out, n);
    assert(out@ =~= decimal(n as nat));
    out
}

/// The decimal notation of a size.
pub fn size_decimal(n: usize) -> (r: String)
    ensures
        r@ == decimal(n as nat),
{
    to_decimal(n as u64)
}

/// The notation of `n` with zeros in front, up to `width` digits.
pub fn to_padded(n: u64, width: usize) -> (r: String)
    ensures
        r@ == padded(n as nat, width as nat),
{
    let d = to_decimal(n);
    let len: usize = crate::text::chars_of(d.as_str()).len();
    let mut out = String::new();
    if len < width {
        let zeros: usize = width - len;
        let mut i: usize = 0;
        while i < zeros
            invariant
                0 <= i <= zeros,
                out@ == Seq::new(i as nat, |k: int| '0'),
            decreases zeros - i,
        {
            out.push('0');
            i += 1;
            assert(out@ =~= Seq::new(i as nat, |k: int| '0'));
        }
    }
    out.append(d.as_str());
    assert(out@ =~= padded(n as nat, width as nat));
    out
}

// ---------------------------------------------------------------------------
// Laws
// ---------------------------------------------------------------------------
/// The number that decimal digits stand for.
pub open spec fn number_of(digits: Seq<char>) -> int
    decreases digits.len(),
{
    if digits.len() == 0 {
        0
    } else {
        number_of(digits.drop_last()) * 10 + (digits.last() as int - '0' as int)
    }
}

/// The decimal notation of a number is made of digits and stands for the number;
/// it has a leading zero only where the number is zero.
pub proof fn the_notation_stands_for_the_number(n: nat)
    ensures
        number_of(decimal(n)) == n,
        decimal(n).len() > 0,
        forall|i: int| 0 <= i < decimal(n).len() ==> '0' <= #[trigger] decimal(n)[i] <= '9',
        decimal(n)[0] == '0' ==> n == 0,
    decreases n,
{
    if n < 10 {
        assert(decimal(n).drop_last() =~= Seq::<char>::empty());
        assert(number_of(Seq::<char>::empty()) == 0);
    } else {
        the_notation_stands_for_the_number(n / 10);
        assert(decimal(n).drop_last() =~= decimal(n / 10));
        assert(decimal(n)[0] == decimal(n / 10)[0]);
        assert forall|i: int| 0 <= i < decimal(n).len() implies '0' <= #[trigger] decimal(n)[i]
            <= '9' by {
            if i < decimal(n / 10).len() {
                assert(decimal(n)[i] == decimal(n / 10)[i]);
            }
        }
    }
}

proof fn lemma_zeros_add_nothing(zeros: nat, digits: Seq<char>)
    ensures
        number_of(Seq::new(zeros, |i: int| '0') + digits) == number_of(digits),
    decreases zeros + digits.len(),
{
    let all = Seq::new(zeros, |i: int| '0') + digits;
    if digits.len() > 0 {
        assert(all.drop_last() =~= Seq::new(zeros, |i: int| '0') + digits.drop_last());
        lemma_zeros_add_nothing(zeros, digits.drop_last());
    } else if zeros > 0 {
        let fewer = (zeros - 1) as nat;
        assert(all.drop_last() =~= Seq::new(fewer, |i: int| '0') + digits);
        lemma_zeros_add_nothing(fewer, digits);
    } else {
        assert(all =~= digits);
    }
}

/// Padding keeps the number and gives at least the width.
pub proof fn padding_keeps_the_number(n: nat, width: nat)
    ensures
        number_of(padded(n, width)) == n,
        padded(n, width).len() >= width,
        decimal(n).len() <= width ==> padded(n, width).len() == width,
        decimal(n).len() > width ==> padded(n, width) == decimal(n),
{
    the_notation_stands_for_the_number(n);
    let d = decimal(n);
    if d.len() < width {
        lemma_zeros_add_nothing((width - d.len()) as nat, d);
    }
}

} // verus!
