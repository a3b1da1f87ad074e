//! Byte-level output helpers: literal text, decimal numbers, fixed-point
//! reals and escaped literal strings, each with the exact bytes it writes.
use vstd::prelude::*;
use vstd::string::StringSliceAdditionalSpecFns;

verus! {

/// The ASCII byte of a decimal digit.
pub open spec fn digit(d: nat) -> u8 {
    (48 + d) as u8
}

/// The decimal representation of `n`, most significant digit first.
pub open spec fn nat_digits(n: nat) -> Seq<u8>
    decreases n,
{
    if n < 10 {
        seq![digit(n)]
    } else {
        nat_digits(n / 10).push(digit(n % 10))
    }
}

/// The bytes of an ASCII literal.
pub open spec fn lit(s: &str) -> Seq<u8> {
    s.spec_bytes()
}

/// Appends a byte slice.
pub fn push_bytes(out: &mut Vec<u8>, s: &[u8])
    ensures
        final(out)@ == old(out)@ + s@,
{
    let mut i: usize = 0;
    while i < s.len()
        invariant
            i <= s@.len(),
            out@ == old(out)@ + s@.subrange(0, i as int),
        decreases s@.len() - i,
    {
        out.push(s[i]);
        i = i + 1;
        assert(s@.subrange(0, i as int) =~= s@.subrange(0, i - 1 as int).push(s@[i - 1]));
    }
    assert(s@.subrange(0, s@.len() as int) =~= s@);
}

/// Appends the bytes of a literal.
pub fn push_lit(out: &mut Vec<u8>, s: &str)
    ensures
        final(out)@ == old(out)@ + lit(s),
{
    push_bytes(out, s.as_bytes());
}

/// Appends the decimal representation of `n`.
pub fn push_nat(out: &mut Vec<u8>, n: u64)
    ensures
        final(out)@ == old(out)@ + nat_digits(n as nat),
    decreases n,
{
    if n >= 10 {
        push_nat(out, n / 10);
    }
    out.push((48 + n % 10) as u8);
    assert(out@ =~= old(out)@ + nat_digits(n as nat)) by {
        if n >= 10 {
            assert(nat_digits(n as nat) == nat_digits((n / 10) as nat).push(digit((n % 10) as nat)));
        }
    }
}

/// `k` ASCII zeros.
pub open spec fn zeros(k: nat) -> Seq<u8> {
    Seq::new(k, |i: int| 48u8)
}

/// The decimal representation of `n`, padded with leading zeros to at least
/// ten digits.
pub open spec fn pad10(n: nat) -> Seq<u8> {
    let d = nat_digits(n);
    if d.len() < 10 {
        zeros((10 - d.len()) as nat) + d
    } else {
        d
    }
}

/// Appends `n` as at least ten decimal digits.
pub fn push_pad10(out: &mut Vec<u8>, n: u64)
    ensures
        final(out)@ == old(out)@ + pad10(n as nat),
{
    let mut d: Vec<u8> = Vec::new();
    push_nat(&mut d, n);
    assert(d@ =~= nat_digits(n as nat));
    let mut k: usize = d.len();
    while k < 10
        invariant
            d@ == nat_digits(n as nat),
            d@.len() <= k <= 10 || (k == d@.len() && k > 10),
            out@ == old(out)@ + zeros((k - d@.len()) as nat),
        decreases 10 - k,
    {
        out.push(48u8);
        k = k + 1;
        assert(zeros((k - d@.len()) as nat) =~= zeros((k - 1 - d@.len()) as nat).push(48u8));
    }
    push_bytes(out, d.as_slice());
    assert(out@ =~= old(out)@ + pad10(n as nat));
}

/// The three fractional digits of a value in thousandths, without trailing
/// zeros; `f` lies in 1..=999.
pub open spec fn frac_digits(f: nat) -> Seq<u8> {
    if f % 100 == 0 {
        seq![digit(f / 100)]
    } else if f % 10 == 0 {
        seq![digit(f / 100), digit(f / 10 % 10)]
    } else {
        seq![digit(f / 100), digit(f / 10 % 10), digit(f % 10)]
    }
}

/// The absolute value of an integer.
pub open spec fn abs(v: int) -> nat {
    if v < 0 {
        (-v) as nat
    } else {
        v as nat
    }
}

/// The decimal form of a fixed-point value `v / 1000`: an optional minus sign,
/// the integer part, and the fractional part without trailing zeros (none at
/// all for a whole number).
pub open spec fn real_bytes(v: int) -> Seq<u8> {
    let a = abs(v);
    let sign: Seq<u8> = if v < 0 {
        seq![45u8]
    } else {
        seq![]
    };
    let frac: Seq<u8> = if a % 1000 == 0 {
        seq![]
    } else {
        seq![46u8] + frac_digits(a % 1000)
    };
    sign + nat_digits(a / 1000) + frac
}

/// Appends the decimal form of the fixed-point value `v / 1000`.
pub fn push_real(out: &mut Vec<u8>, v: i64)
    ensures
        final(out)@ == old(out)@ + real_bytes(v as int),
{
    let a: u64 = if v < 0 {
        (0i128 - v as i128) as u64
    } else {
        v as u64
    };
    assert(a as nat == abs(v as int));
    if v < 0 {
        out.push(45u8);
    }
    push_nat(out, a / 1000);
    let ghost whole = out@;
    let f: u64 = a % 1000;
    if f != 0 {
        out.push(46u8);
        out.push((48 + f / 100) as u8);
        if f % 100 != 0 {
            out.push((48 + f / 10 % 10) as u8);
            if f % 10 != 0 {
                out.push((48 + f % 10) as u8);
            }
        }
        assert(out@ =~= whole + (seq![46u8] + frac_digits(f as nat)));
    } else {
        assert(out@ =~= whole + Seq::<u8>::empty());
    }
    assert(out@ =~= old(out)@ + real_bytes(v as int));
}

/// One byte of a literal string, with the delimiters and the escape byte
/// preceded by a backslash.
pub open spec fn escape_byte(b: u8) -> Seq<u8> {
    if b == 40 || b == 41 || b == 92 {
        seq![92u8, b]
    } else {
        seq![b]
    }
}

/// A byte sequence with every byte escaped.
pub open spec fn escaped(s: Seq<u8>) -> Seq<u8>
    decreases s.len(),
{
    if s.len() == 0 {
        seq![]
    } else {
        escaped(s.drop_last()) + escape_byte(s.last())
    }
}

/// Appends a literal string: the escaped bytes between parentheses.
pub fn push_text(out: &mut Vec<u8>, s: &[u8])
    ensures
        final(out)@ == old(out)@ + seq![40u8] + escaped(s@) + seq![41u8],
{
    out.push(40u8);
    let ghost open_at = out@;
    let mut i: usize = 0;
    while i < s.len()
        invariant
            i <= s@.len(),
            out@ == open_at + escaped(s@.subrange(0, i as int)),
        decreases s@.len() - i,
    {
        let b = s[i];
        if b == 40 || b == 41 || b == 92 {
            out.push(92u8);
        }
        out.push(b);
        i = i + 1;
        assert(s@.subrange(0, i as int).drop_last() =~= s@.subrange(0, i - 1 as int));
        assert(out@ =~= open_at + escaped(s@.subrange(0, i as int)));
    }
    assert(s@.subrange(0, s@.len() as int) =~= s@);
    out.push(41u8);
    assert(out@ =~= old(out)@ + seq![40u8] + escaped(s@) + seq![41u8]);
}

} // verus!
