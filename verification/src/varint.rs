//! QUIC variable-length integers and QPACK prefix integers.

use vstd::arithmetic::power2::pow2;
use vstd::prelude::*;

verus! {

/// One more than the largest value that a variable-length integer can hold.
pub const VARINT_LIMIT: u64 = 0x4000_0000_0000_0000;

/// The number that a byte sequence denotes, most significant byte first.
pub open spec fn be_value(s: Seq<u8>) -> nat
    decreases s.len(),
{
    if s.len() == 0 {
        0
    } else {
        be_value(s.drop_last()) * 256 + s.last() as nat
    }
}

/// The `n` least significant bytes of `x`, most significant byte first.
pub open spec fn be_bytes(x: nat, n: nat) -> Seq<u8>
    decreases n,
{
    if n == 0 {
        Seq::empty()
    } else {
        be_bytes(x / 256, (n - 1) as nat).push((x % 256) as u8)
    }
}

/// The length in bytes of an encoding, which its first byte tells.
pub open spec fn varint_len(first: u8) -> nat {
    if first < 64 {
        1
    } else if first < 128 {
        2
    } else if first < 192 {
        4
    } else {
        8
    }
}

/// The value at the front of `s` and the number of bytes it takes, if `s` holds it whole.
pub open spec fn varint_decode(s: Seq<u8>) -> Option<(nat, nat)> {
    if s.len() == 0 || s.len() < varint_len(s[0]) {
        None
    } else {
        let n = varint_len(s[0]);
        Some((be_value(s.take(n as int).update(0, (s[0] % 64) as u8)), n))
    }
}

/// The number of bytes in the shortest encoding of `x`.
pub open spec fn varint_size(x: nat) -> nat {
    if x < 64 {
        1
    } else if x < 16384 {
        2
    } else if x < 1073741824 {
        4
    } else {
        8
    }
}

/// What the two length bits of an encoding of `n` bytes add to its first byte.
pub open spec fn varint_tag(n: nat) -> nat {
    if n == 1 {
        0
    } else if n == 2 {
        64
    } else if n == 4 {
        128
    } else {
        192
    }
}

/// The shortest encoding of `x`, for `x` below [`VARINT_LIMIT`].
pub open spec fn varint_encode(x: nat) -> Seq<u8> {
    let n = varint_size(x);
    let raw = be_bytes(x, n);
    raw.update(0, (raw[0] + varint_tag(n)) as u8)
}

proof fn lemma_be_bytes_len(x: nat, n: nat)
    ensures
        be_bytes(x, n).len() == n,
    decreases n,
{
    if n > 0 {
        lemma_be_bytes_len(x / 256, (n - 1) as nat);
    }
}

spec fn pow256(n: nat) -> nat
    decreases n,
{
    if n == 0 {
        1
    } else {
        256 * pow256((n - 1) as nat)
    }
}

proof fn lemma_be_bytes_value(x: nat, n: nat)
    requires
        x < pow256(n),
    ensures
        be_value(be_bytes(x, n)) == x,
    decreases n,
{
    lemma_be_bytes_len(x, n);
    if n > 0 {
        lemma_be_bytes_value(x / 256, (n - 1) as nat);
        assert(be_bytes(x, n).drop_last() =~= be_bytes(x / 256, (n - 1) as nat));
    }
}

/// The first byte of `n` bytes of `x` is what is left of `x` above the other bytes.
proof fn lemma_be_bytes_first(x: nat, n: nat)
    requires
        n > 0,
        x < pow256(n),
    ensures
        be_bytes(x, n)[0] == x / pow256((n - 1) as nat),
    decreases n,
{
    lemma_be_bytes_len(x, n);
    if n > 1 {
        lemma_be_bytes_first(x / 256, (n - 1) as nat);
        lemma_be_bytes_len(x / 256, (n - 1) as nat);
        let p = pow256((n - 2) as nat);
        assert(p > 0) by {
            lemma_pow256_positive((n - 2) as nat);
        }
        vstd::arithmetic::div_mod::lemma_div_denominator(x as int, 256, p as int);
        assert(pow256((n - 1) as nat) == 256 * p);
        assert((x / 256) / p == x / (256 * p));
        assert(be_bytes(x, n)[0] == be_bytes(x / 256, (n - 1) as nat)[0]);
    } else {
        reveal_with_fuel(pow256, 2);
        reveal_with_fuel(be_bytes, 2);
        assert(be_bytes(x, n)[0] == (x % 256) as u8);
        assert(x / 1 == x);
    }
}

/// The first byte of the fixed-width form leaves room for the length bits.
proof fn lemma_first_byte_fits(x: nat)
    requires
        x < VARINT_LIMIT,
    ensures
        x < pow256(varint_size(x)),
        be_bytes(x, varint_size(x)).len() == varint_size(x),
        be_bytes(x, varint_size(x))[0] < 64,
{
    let n = varint_size(x);
    reveal_with_fuel(pow256, 9);
    assert(pow256(0) == 1 && pow256(1) == 0x100 && pow256(3) == 0x100_0000 && pow256(7)
        == 0x100_0000_0000_0000);
    assert(pow256(2) == 0x1_0000 && pow256(4) == 0x1_0000_0000 && pow256(8)
        == 0x1_0000_0000_0000_0000);
    lemma_be_bytes_len(x, n);
    lemma_be_bytes_first(x, n);
    if n == 1 {
        assert(pow256((n - 1) as nat) == 1);
    } else if n == 2 {
        assert(x / 0x100 < 64);
    } else if n == 4 {
        assert(x / 0x100_0000 < 64);
    } else {
        assert(x / 0x100_0000_0000_0000 < 64);
    }
}

proof fn lemma_pow256_positive(n: nat)
    ensures
        pow256(n) > 0,
    decreases n,
{
    if n > 0 {
        lemma_pow256_positive((n - 1) as nat);
    }
}

/// Decoding undoes encoding, whatever follows the encoding.
pub proof fn lemma_varint_round_trip(x: nat, rest: Seq<u8>)
    requires
        x < VARINT_LIMIT,
    ensures
        varint_decode(varint_encode(x) + rest) == Some((x, varint_size(x))),
        varint_encode(x).len() == varint_size(x),
{
    let n = varint_size(x);
    let raw = be_bytes(x, n);
    lemma_first_byte_fits(x);
    lemma_be_bytes_value(x, n);
    let s = varint_encode(x) + rest;
    assert(s[0] == raw[0] + varint_tag(n));
    assert(varint_len(s[0]) == n);
    assert(s.take(n as int).update(0, (s[0] % 64) as u8) =~= raw);
}

/// Encodes `x` in the shortest form.
pub fn encode_varint(x: u64) -> (out: Vec<u8>)
    requires
        x < VARINT_LIMIT,
    ensures
        out@ == varint_encode(x as nat),
{
    let (n, tag): (usize, u8) = if x < 64 {
        (1, 0)
    } else if x < 16384 {
        (2, 64)
    } else if x < 1073741824 {
        (4, 128)
    } else {
        (8, 192)
    };
    let out = fixed_bytes(x, n);
    proof {
        lemma_first_byte_fits(x as nat);
    }
    let mut out = out;
    let first: u8 = out[0];
    out.set(0, first + tag);
    out
}

/// The `n` least significant bytes of `x`, most significant byte first.
fn fixed_bytes(x: u64, n: usize) -> (out: Vec<u8>)
    ensures
        out@ == be_bytes(x as nat, n as nat),
    decreases n,
{
    if n == 0 {
        Vec::new()
    } else {
        let mut out = fixed_bytes(x / 256, n - 1);
        out.push((x % 256) as u8);
        out
    }
}

/// Takes a variable-length integer off the front of `data`. Where `data` does not hold
/// one whole, it stays as it is.
pub fn varint(data: &mut &[u8]) -> (value: Option<u64>)
    ensures
        match varint_decode(old(data)@) {
            Some((v, n)) => value == Some(v as u64) && v < VARINT_LIMIT && final(data)@ == old(
                data,
            )@.skip(n as int),
            None => value is None && final(data)@ == old(data)@,
        },
{
    let input: &[u8] = *data;
    if input.len() == 0 {
        return None;
    }
    let first: u8 = input[0];
    let n: usize = if first < 64 {
        1
    } else if first < 128 {
        2
    } else if first < 192 {
        4
    } else {
        8
    };
    if input.len() < n {
        return None;
    }
    let ghost body = input@.take(n as int).update(0, (first % 64) as u8);
    let mut value: u64 = (first % 64) as u64;
    let mut i: usize = 1;
    proof {
        reveal_with_fuel(pow256, 9);
        assert(body.take(1).drop_last() =~= Seq::<u8>::empty());
        reveal_with_fuel(be_value, 2);
    }
    while i < n
        invariant
            1 <= i <= n <= 8,
            n <= input@.len(),
            first == input@[0],
            body == input@.take(n as int).update(0, (first % 64) as u8),
            value == be_value(body.take(i as int)),
            value < 64 * pow256((i - 1) as nat),
        decreases n - i,
    {
        proof {
            reveal_with_fuel(pow256, 9);
            assert(pow256((i - 1) as nat) <= pow256(6)) by {
                lemma_pow256_monotonic((i - 1) as nat, 6);
            }
            assert(pow256(i as nat) == 256 * pow256((i - 1) as nat));
            assert(body.take(i + 1).drop_last() =~= body.take(i as int));
        }
        value = value * 256 + input[i] as u64;
        i = i + 1;
    }
    proof {
        reveal_with_fuel(pow256, 9);
        lemma_pow256_monotonic((n - 1) as nat, 7);
        assert(body.take(n as int) =~= body);
        assert(input@.skip(n as int) =~= input@.subrange(n as int, input@.len() as int));
    }
    *data = vstd::slice::slice_subrange(input, n, input.len());
    Some(value)
}

proof fn lemma_pow256_monotonic(i: nat, j: nat)
    requires
        i <= j,
    ensures
        pow256(i) <= pow256(j),
    decreases j,
{
    if i < j {
        lemma_pow256_monotonic(i, (j - 1) as nat);
    }
}

/// The continuation of a prefix integer: bytes of seven bits each, least significant
/// first, the last of them the first below 128. At most `left` bytes are read.
/// Gives the value and the number of bytes read, the value only if the end was found.
pub open spec fn continuation(s: Seq<u8>, sum: nat, scale: nat, left: nat) -> (Option<nat>, nat)
    decreases left,
{
    if left == 0 || s.len() == 0 {
        (None, 0)
    } else {
        let next = sum + (s[0] % 128) as nat * scale;
        if s[0] < 128 {
            (Some(next), 1)
        } else {
            let (value, n) = continuation(s.skip(1), next, scale * 128, (left - 1) as nat);
            (value, n + 1)
        }
    }
}

/// A QPACK integer whose prefix is the low `bits` bits of the first byte, with at most
/// nine bytes of continuation: its value, if it is there, and the bytes read.
pub open spec fn prefix_integer(s: Seq<u8>, bits: nat) -> (Option<nat>, nat) {
    if s.len() == 0 {
        (None, 0)
    } else {
        let mask = (pow2(bits) - 1) as nat;
        let low = s[0] as nat % pow2(bits);
        if low < mask {
            (Some(low), 1)
        } else {
            let (value, n) = continuation(s.skip(1), low, 1, 9);
            (value, n + 1)
        }
    }
}

/// Takes a QPACK integer with a prefix of `bits` bits off the front of `data`. Where the
/// integer does not end, the bytes that were read are gone.
pub fn integer(data: &mut &[u8], bits: u8) -> (value: Option<u64>)
    requires
        bits < 64,
    ensures
        ({
            let (v, n) = prefix_integer(old(data)@, bits as nat);
            &&& final(data)@ == old(data)@.skip(n as int)
            &&& match v {
                Some(v) => v <= u64::MAX && value == Some(v as u64),
                None => value is None,
            }
        }),
{
    let input: &[u8] = *data;
    if input.len() == 0 {
        assert(input@.skip(0) =~= input@);
        return None;
    }
    proof {
        vstd::bits::lemma_u64_pow2_no_overflow(bits as nat);
        vstd::arithmetic::power2::lemma_pow2_pos(bits as nat);
        vstd::bits::lemma_u64_shl_is_mul(1, bits as u64);
    }
    let mask: u64 = (1u64 << bits as u64) - 1;
    let first: u64 = input[0] as u64;
    let mut value: u64 = first % (mask + 1);
    *data = vstd::slice::slice_subrange(input, 1, input.len());
    assert(input@.skip(1) =~= data@);
    if value < mask {
        return Some(value);
    }
    assert(value <= first) by {
        vstd::arithmetic::div_mod::lemma_mod_decreases(first as nat, (mask + 1) as nat);
    }
    let mut scale: u64 = 1;
    let mut i: usize = 0;
    while i < 9
        invariant
            0 <= i <= 9,
            input@ == old(data)@,
            1 + i <= input@.len(),
            data@ == input@.skip(1 + i as int),
            scale == pow128(i as nat),
            value <= 255 + pow128(i as nat) - 1,
            ({
                let (v, n) = prefix_integer(input@, bits as nat);
                let rest = input@.skip(1 + i as int);
                let (w, m) = continuation(rest, value as nat, scale as nat, (9 - i) as nat);
                v == w && n == m + 1 + i
            }),
        decreases 9 - i,
    {
        let rest: &[u8] = *data;
        if rest.len() == 0 {
            assert(input@.skip(1 + i as int) =~= data@);
            return None;
        }
        proof {
            reveal_with_fuel(pow128, 10);
            lemma_pow128_monotonic(i as nat, 8);
            assert(rest@[0] == input@[1 + i as int]);
            assert(input@.skip(1 + i as int).skip(1) =~= input@.skip(2 + i as int));
        }
        let byte: u8 = rest[0];
        let low: u64 = (byte % 128) as u64;
        proof {
            assert(low * scale <= 127 * scale) by (nonlinear_arith)
                requires
                    low <= 127,
            ;
        }
        *data = vstd::slice::slice_subrange(rest, 1, rest.len());
        assert(data@ =~= input@.skip(2 + i as int));
        value = value + low * scale;
        if byte < 128 {
            return Some(value);
        }
        scale = scale * 128;
        i = i + 1;
    }
    None
}

spec fn pow128(n: nat) -> nat
    decreases n,
{
    if n == 0 {
        1
    } else {
        128 * pow128((n - 1) as nat)
    }
}

proof fn lemma_pow128_monotonic(i: nat, j: nat)
    requires
        i <= j,
    ensures
        pow128(i) <= pow128(j),
    decreases j,
{
    if i < j {
        lemma_pow128_monotonic(i, (j - 1) as nat);
    }
}

} // verus!
