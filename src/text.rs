//! Byte-level text building: ASCII literals and zero-padded decimal numbers.
use vstd::prelude::*;

verus! {

broadcast use vstd::string::is_ascii_spec_bytes;

/// The bytes of an ASCII character sequence, one byte per character.
pub open spec fn ascii(s: Seq<char>) -> Seq<u8> {
    Seq::new(s.len(), |i: int| s[i] as u8)
}

/// The shortest decimal rendering of `n`, most significant digit first.
pub open spec fn digits_of(n: nat) -> Seq<u8>
    decreases n,
{
    if n < 10 {
        seq![(48 + n) as u8]
    } else {
        digits_of(n / 10).push((48 + n % 10) as u8)
    }
}

/// `n` in decimal, left-padded with `'0'` up to `width` digits; never truncated.
pub open spec fn zero_padded(n: nat, width: nat) -> Seq<u8> {
    let d = digits_of(n);
    if d.len() >= width {
        d
    } else {
        Seq::new((width - d.len()) as nat, |i: int| 48u8) + d
    }
}

/// `10` raised to `k`.
pub open spec fn pow10(k: nat) -> nat
    decreases k,
{
    if k == 0 {
        1
    } else {
        10 * pow10((k - 1) as nat)
    }
}

/// Whether every byte is an ASCII decimal digit.
pub open spec fn all_digits(s: Seq<u8>) -> bool {
    forall|i: int| 0 <= i < s.len() ==> 48 <= #[trigger] s[i] <= 57
}

/// A number below `10^k` has at most `k` digits, and all of them are decimal digits.
pub proof fn lemma_digits_bound(n: nat, k: nat)
    requires
        k >= 1,
        n < pow10(k),
    ensures
        1 <= digits_of(n).len() <= k,
        all_digits(digits_of(n)),
    decreases n,
{
    if n >= 10 {
        assert(pow10(k) == 10 * pow10((k - 1) as nat));
        if k == 1 {
            assert(pow10(0) == 1);
        }
        assert(k >= 2);
        assert(n / 10 < pow10((k - 1) as nat));
        lemma_digits_bound(n / 10, (k - 1) as nat);
    }
}

/// Every byte of a decimal rendering is a decimal digit.
pub proof fn lemma_digits_are_digits(n: nat)
    ensures
        all_digits(digits_of(n)),
        digits_of(n).len() >= 1,
    decreases n,
{
    if n >= 10 {
        lemma_digits_are_digits(n / 10);
    }
}

/// A larger number never has fewer digits.
pub proof fn lemma_digits_monotone(m: nat, n: nat)
    requires
        m <= n,
    ensures
        digits_of(m).len() <= digits_of(n).len(),
    decreases n,
{
    lemma_digits_are_digits(n);
    if m >= 10 {
        lemma_digits_monotone(m / 10, n / 10);
    }
}

/// Padding to eight keeps at least eight bytes, and all of them are decimal digits.
pub proof fn lemma_padded_digits(n: nat)
    ensures
        zero_padded(n, 8).len() >= 8,
        all_digits(zero_padded(n, 8)),
{
    lemma_digits_are_digits(n);
    let d = digits_of(n);
    let z = zero_padded(n, 8);
    assert forall|i: int| 0 <= i < z.len() implies 48 <= #[trigger] z[i] <= 57 by {
        if d.len() < 8 && i >= 8 - d.len() {
            assert(z[i] == d[i - (8 - d.len())]);
        }
    }
}

/// A number below `10^8` renders as exactly eight bytes when padded to eight.
pub proof fn lemma_eight_digits(n: nat)
    requires
        n < 100_000_000,
    ensures
        zero_padded(n, 8).len() == 8,
{
    reveal_with_fuel(pow10, 9);
    lemma_digits_bound(n, 8);
}

/// A number that fits in a `usize` renders in at most twenty digits.
pub proof fn lemma_usize_digits(n: nat)
    requires
        n <= usize::MAX,
    ensures
        zero_padded(n, 8).len() <= 20,
{
    reveal_with_fuel(pow10, 21);
    lemma_digits_bound(n, 20);
}

/// Appends the bytes of an ASCII string.
pub fn push_ascii(out: &mut Vec<u8>, s: &str)
    requires
        vstd::string::is_ascii(s),
    ensures
        final(out)@ == old(out)@ + ascii(s@),
{
    let b = s.as_bytes();
    let mut i: usize = 0;
    while i < b.len()
        invariant
            b@ == ascii(s@),
            i <= b@.len(),
            out@ == old(out)@ + b@.subrange(0, i as int),
        decreases b@.len() - i,
    {
        out.push(b[i]);
        i = i + 1;
        assert(b@.subrange(0, i as int) =~= b@.subrange(0, i - 1).push(b@[i - 1]));
    }
    assert(b@.subrange(0, b@.len() as int) =~= b@);
}

/// Appends a sequence of bytes.
pub fn push_bytes(out: &mut Vec<u8>, s: &[u8])
    ensures
        final(out)@ == old(out)@ + s@,
{
    let mut i: usize = 0;
    while i < s.len()
        invariant
            i <= s@.len(),
            out@ == old(out)@ + s@.subrange(0, i as int),
        decreases s@.len() - i,
    {
        out.push(s[i]);
        i = i + 1;
        assert(s@.subrange(0, i as int) =~= s@.subrange(0, i - 1).push(s@[i - 1]));
    }
    assert(s@.subrange(0, s@.len() as int) =~= s@);
}

/// Appends the shortest decimal rendering of `n`.
pub fn push_decimal(out: &mut Vec<u8>, n: usize)
    ensures
        final(out)@ == old(out)@ + digits_of(n as nat),
    decreases n,
{
    if n >= 10 {
        push_decimal(out, n / 10);
    }
    let d: u8 = (n % 10) as u8;
    out.push(48 + d);
    assert(out@ =~= old(out)@ + digits_of(n as nat));
}

/// The number of decimal digits of `n`.
pub fn decimal_len(n: usize) -> (r: usize)
    ensures
        r == digits_of(n as nat).len(),
        1 <= r <= 20,
    decreases n,
{
    proof {
        reveal_with_fuel(pow10, 21);
        lemma_digits_bound(n as nat, 20);
    }
    if n >= 10 {
        decimal_len(n / 10) + 1
    } else {
        1
    }
}

/// Appends `n` in decimal, left-padded with `'0'` up to `width` digits.
pub fn push_padded(out: &mut Vec<u8>, n: usize, width: usize)
    ensures
        final(out)@ == old(out)@ + zero_padded(n as nat, width as nat),
{
    let len = decimal_len(n);
    let ghost start = out@;
    if len < width {
        let mut k: usize = 0;
        while k < width - len
            invariant
                len < width,
                k <= width - len,
                out@ == start + Seq::new(k as nat, |i: int| 48u8),
            decreases width - len - k,
        {
            out.push(48);
            k = k + 1;
            assert(out@ =~= start + Seq::new(k as nat, |i: int| 48u8));
        }
    }
    push_decimal(out, n);
    assert(out@ =~= start + zero_padded(n as nat, width as nat));
}

} // verus!
