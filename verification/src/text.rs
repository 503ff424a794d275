//! Text as bytes.

use crate::h3::fields::decimal;
use vstd::prelude::*;

verus! {

/// `n` copies of a byte.
pub open spec fn repeated(b: u8, n: nat) -> Seq<u8> {
    Seq::new(n, |i: int| b)
}

/// Appends `n` copies of a byte.
pub(crate) fn put_repeated(out: &mut Vec<u8>, b: u8, n: usize)
    ensures
        final(out)@ == old(out)@ + repeated(b, n as nat),
{
    assert(out@ =~= old(out)@ + repeated(b, 0));
    for i in 0..n
        invariant
            out@ == old(out)@ + repeated(b, i as nat),
    {
        out.push(b);
        assert(out@ =~= old(out)@ + repeated(b, (i + 1) as nat));
    }
}

/// A number in decimal digits, with zeros in front up to a width.
pub open spec fn padded(n: nat, width: nat) -> Seq<u8> {
    let digits = decimal(n);
    if digits.len() < width {
        repeated(48, (width - digits.len()) as nat) + digits
    } else {
        digits
    }
}

/// A number in decimal digits.
pub(crate) fn digits(n: u64) -> (v: Vec<u8>)
    ensures
        v@ == decimal(n as nat),
    decreases n,
{
    if n < 10 {
        let mut v: Vec<u8> = Vec::new();
        v.push(48 + n as u8);
        assert(v@ =~= decimal(n as nat));
        v
    } else {
        let mut v = digits(n / 10);
        v.push(48 + (n % 10) as u8);
        v
    }
}

/// Appends a number, with zeros in front up to a width.
pub(crate) fn put_padded(out: &mut Vec<u8>, n: u64, width: usize)
    ensures
        final(out)@ == old(out)@ + padded(n as nat, width as nat),
{
    let v = digits(n);
    if v.len() < width {
        put_repeated(out, 48, width - v.len());
    }
    out.extend_from_slice(v.as_slice());
    assert(out@ =~= old(out)@ + padded(n as nat, width as nat));
}

/// Whether two byte strings are equal.
pub(crate) fn same(a: &[u8], b: &[u8]) -> (r: bool)
    ensures
        r == (a@ == b@),
{
    if a.len() != b.len() {
        return false;
    }
    for i in 0..a.len()
        invariant
            a@.len() == b@.len(),
            forall|k: int| 0 <= k < i ==> a@[k] == b@[k],
    {
        if a[i] != b[i] {
            assert(a@[i as int] != b@[i as int]);
            return false;
        }
    }
    assert(a@ =~= b@);
    true
}

} // verus!
