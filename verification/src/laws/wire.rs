//! Integers and packets on the wire.

use crate::h3::packet::packet_decode;
use crate::h3::packet::packet_encode;
use crate::varint::be_bytes;
use crate::varint::be_value;
use crate::varint::continuation;
use crate::varint::prefix_integer;
use crate::varint::varint_decode;
use crate::varint::varint_encode;
use vstd::arithmetic::power2::lemma_pow2_pos;
use vstd::arithmetic::power2::pow2;
use vstd::prelude::*;

verus! {

/// Byte `i` from the end of a number.
pub open spec fn byte_of(x: nat, scale: nat) -> u8 {
    (x / scale % 256) as u8
}

/// A number takes one byte below 2^6, two below 2^14, four below 2^30 and eight otherwise,
/// most significant byte first; the two upper bits of the first byte tell how many.
pub proof fn lemma_varint_form(x: nat)
    requires
        x < 0x4000_0000_0000_0000,
    ensures
        x < 0x40 ==> varint_encode(x) == seq![x as u8],
        0x40 <= x < 0x4000 ==> varint_encode(x) == seq![(0x40 + x / 0x100) as u8, (x % 256) as u8],
        0x4000 <= x < 0x4000_0000 ==> varint_encode(x) == seq![
            (0x80 + x / 0x100_0000) as u8,
            byte_of(x, 0x1_0000),
            byte_of(x, 0x100),
            (x % 256) as u8,
        ],
        0x4000_0000 <= x ==> varint_encode(x) == seq![
            (0xc0 + x / 0x100_0000_0000_0000) as u8,
            byte_of(x, 0x1_0000_0000_0000),
            byte_of(x, 0x100_0000_0000),
            byte_of(x, 0x1_0000_0000),
            byte_of(x, 0x100_0000),
            byte_of(x, 0x1_0000),
            byte_of(x, 0x100),
            (x % 256) as u8,
        ],
{
    reveal_with_fuel(be_bytes, 9);
    let (a, b, c, d) = (x / 0x100, x / 0x1_0000, x / 0x100_0000, x / 0x1_0000_0000);
    let (e, f, g) = (x / 0x100_0000_0000, x / 0x1_0000_0000_0000, x / 0x100_0000_0000_0000);
    assert(a / 256 == b && b / 256 == c && c / 256 == d);
    assert(d / 256 == e && e / 256 == f && f / 256 == g);
    if x < 0x40 {
        assert(varint_encode(x) =~= seq![x as u8]);
    } else if x < 0x4000 {
        assert(be_bytes(x, 2) =~= seq![(a % 256) as u8, (x % 256) as u8]);
        assert(varint_encode(x) =~= seq![(0x40 + a) as u8, (x % 256) as u8]);
    } else if x < 0x4000_0000 {
        assert(be_bytes(x, 4) =~= seq![
            (c % 256) as u8,
            (b % 256) as u8,
            (a % 256) as u8,
            (x % 256) as u8,
        ]);
    } else {
        assert(be_bytes(x, 8) =~= seq![
            (g % 256) as u8,
            (f % 256) as u8,
            (e % 256) as u8,
            (d % 256) as u8,
            (c % 256) as u8,
            (b % 256) as u8,
            (a % 256) as u8,
            (x % 256) as u8,
        ]);
    }
}

/// What is read off the front of some bytes: the first byte tells how many belong to the
/// number, which is there only if they all are.
pub proof fn lemma_varint_reading(s: Seq<u8>)
    ensures
        s.len() == 0 ==> varint_decode(s) is None,
        s.len() > 0 && s[0] < 0x40 ==> varint_decode(s) == Some((s[0] as nat, 1nat)),
        s.len() > 0 && 0x40 <= s[0] < 0x80 ==> varint_decode(s) == if s.len() < 2 {
            None
        } else {
            Some((((s[0] - 0x40) * 0x100 + s[1]) as nat, 2nat))
        },
        s.len() > 0 && 0x80 <= s[0] < 0xc0 ==> varint_decode(s) == if s.len() < 4 {
            None
        } else {
            Some(
                (
                    ((s[0] - 0x80) * 0x100_0000 + s[1] * 0x1_0000 + s[2] * 0x100 + s[3]) as nat,
                    4nat,
                ),
            )
        },
        s.len() > 0 && 0xc0 <= s[0] ==> varint_decode(s) == if s.len() < 8 {
            None
        } else {
            Some(
                (
                    ((s[0] - 0xc0) * 0x100_0000_0000_0000 + s[1] * 0x1_0000_0000_0000 + s[2]
                        * 0x100_0000_0000 + s[3] * 0x1_0000_0000 + s[4] * 0x100_0000 + s[5]
                        * 0x1_0000 + s[6] * 0x100 + s[7]) as nat,
                    8nat,
                ),
            )
        },
{
    if s.len() > 0 {
        let first = (s[0] % 64) as u8;
        if s[0] < 0x40 {
            lemma_be_one(first);
            assert(s.take(1).update(0, first) =~= seq![first]);
        } else if s[0] < 0x80 {
            if s.len() >= 2 {
                lemma_be_push(seq![first], s[1]);
                lemma_be_one(first);
                assert(s.take(2).update(0, first) =~= seq![first].push(s[1]));
            }
        } else if s[0] < 0xc0 {
            if s.len() >= 4 {
                lemma_be_four(first, s);
                assert(s.take(4).update(0, first) =~= seq![first].push(s[1]).push(s[2]).push(s[3]));
            }
        } else if s.len() >= 8 {
            lemma_be_four(first, s);
            let four = seq![first].push(s[1]).push(s[2]).push(s[3]);
            lemma_be_push(four, s[4]);
            lemma_be_push(four.push(s[4]), s[5]);
            lemma_be_push(four.push(s[4]).push(s[5]), s[6]);
            lemma_be_push(four.push(s[4]).push(s[5]).push(s[6]), s[7]);
            assert(s.take(8).update(0, first) =~= four.push(s[4]).push(s[5]).push(s[6]).push(s[7]));
        }
    }
}

proof fn lemma_be_push(s: Seq<u8>, b: u8)
    ensures
        be_value(s.push(b)) == be_value(s) * 256 + b,
{
    assert(s.push(b).drop_last() =~= s);
}

proof fn lemma_be_one(b: u8)
    ensures
        be_value(seq![b]) == b,
{
    assert(seq![b].drop_last() =~= Seq::empty());
    assert(be_value(Seq::empty()) == 0);
}

proof fn lemma_be_four(first: u8, s: Seq<u8>)
    requires
        s.len() >= 4,
    ensures
        be_value(seq![first].push(s[1]).push(s[2]).push(s[3])) == first * 0x100_0000 + s[1]
            * 0x1_0000 + s[2] * 0x100 + s[3],
{
    lemma_be_one(first);
    lemma_be_push(seq![first], s[1]);
    lemma_be_push(seq![first].push(s[1]), s[2]);
    lemma_be_push(seq![first].push(s[1]).push(s[2]), s[3]);
}

/// The bytes of a packet are a quarter of the stream ID, then the payload; reading takes the
/// quarter off and gives the rest as the payload. A quarter of 2^60 or more belongs to no
/// stream.
pub proof fn lemma_packet_form(id: u64, payload: Seq<u8>, packet: Seq<u8>)
    ensures
        packet_encode(id, payload) == varint_encode((id / 4) as nat) + payload,
        packet_decode(packet) == match varint_decode(packet) {
            Some((quarter, n)) => if quarter < 0x1000_0000_0000_0000 {
                Some(((4 * quarter) as u64, packet.skip(n as int)))
            } else {
                None
            },
            None => None,
        },
{
}

/// A number in groups of seven bits, least significant group first; all but the last are
/// marked with the upper bit.
pub open spec fn groups(v: nat) -> Seq<u8>
    decreases v,
{
    if v < 128 {
        seq![v as u8]
    } else {
        seq![(128 + v % 128) as u8] + groups(v / 128)
    }
}

proof fn lemma_groups_are_read(v: nat, rest: Seq<u8>, sum: nat, scale: nat, left: nat)
    requires
        groups(v).len() <= left,
    ensures
        continuation(groups(v) + rest, sum, scale, left) == (
            Some((sum + v * scale) as nat),
            groups(v).len(),
        ),
    decreases v,
{
    let s = groups(v) + rest;
    if v < 128 {
        assert(s[0] == v);
        assert(s[0] % 128 == v);
    } else {
        let low = (128 + v % 128) as u8;
        assert(s[0] == low);
        assert(s.skip(1) =~= groups(v / 128) + rest);
        let next = (sum + (low % 128) as nat * scale) as nat;
        assert(low % 128 == v % 128);
        lemma_groups_are_read(v / 128, rest, next, scale * 128, (left - 1) as nat);
        assert((v % 128) * scale + (v / 128) * (scale * 128) == v * scale) by (nonlinear_arith)
            requires
                v == (v / 128) * 128 + v % 128,
        ;
    }
}

/// A QPACK integer: what fits below the largest value of the prefix stands in the prefix
/// itself, and anything more follows in groups of seven bits. The upper bits of the first
/// byte do not matter, nor does what follows.
pub proof fn lemma_prefix_integers_are_read(
    flags: nat,
    bits: nat,
    v: nat,
    first: u8,
    rest: Seq<u8>,
)
    requires
        0 < bits <= 8,
    ensures
        v < pow2(bits) - 1 && first == flags * pow2(bits) + v ==> prefix_integer(
            seq![first] + rest,
            bits,
        ) == (Some(v), 1nat),
        v >= pow2(bits) - 1 && first == flags * pow2(bits) + (pow2(bits) - 1) && groups(
            (v - (pow2(bits) - 1)) as nat,
        ).len() <= 9 ==> prefix_integer(
            seq![first] + groups((v - (pow2(bits) - 1)) as nat) + rest,
            bits,
        ) == (Some(v), 1 + groups((v - (pow2(bits) - 1)) as nat).len()),
{
    lemma_pow2_pos(bits);
    let p = pow2(bits) as int;
    if v < p - 1 && first == flags * p + v {
        vstd::arithmetic::div_mod::lemma_fundamental_div_mod_converse(
            first as int,
            p,
            flags as int,
            v as int,
        );
        assert((seq![first] + rest)[0] == first);
    }
    if v >= p - 1 && first == flags * p + (p - 1) && groups((v - (p - 1)) as nat).len() <= 9 {
        let more = (v - (p - 1)) as nat;
        vstd::arithmetic::div_mod::lemma_fundamental_div_mod_converse(
            first as int,
            p,
            flags as int,
            p - 1,
        );
        let s = seq![first] + groups(more) + rest;
        assert(s[0] == first);
        assert(s.skip(1) =~= groups(more) + rest);
        lemma_groups_are_read(more, rest, (p - 1) as nat, 1, 9);
    }
}

/// A QPACK integer that breaks off, or that goes on for more than nine groups, has no value.
pub proof fn lemma_endless_integer_has_no_value(s: Seq<u8>, bits: nat)
    requires
        bits <= 8,
        s.len() > 0,
        s[0] as nat % pow2(bits) == pow2(bits) - 1,
        forall|i: int| 1 <= i < s.len() && i <= 9 ==> #[trigger] s[i] >= 128,
    ensures
        prefix_integer(s, bits).0 is None,
{
    lemma_pow2_pos(bits);
    assert forall|i: int| 0 <= i < s.skip(1).len() && i < 9 implies #[trigger] s.skip(1)[i]
        >= 128 by {
        assert(s.skip(1)[i] == s[i + 1]);
    }
    lemma_endless_groups(s.skip(1), s[0] as nat % pow2(bits), 1, 9);
}

proof fn lemma_endless_groups(s: Seq<u8>, sum: nat, scale: nat, left: nat)
    requires
        forall|i: int| 0 <= i < s.len() && i < left ==> #[trigger] s[i] >= 128,
    ensures
        continuation(s, sum, scale, left).0 is None,
    decreases left,
{
    if left > 0 && s.len() > 0 {
        let next = sum + (s[0] % 128) as nat * scale;
        assert forall|i: int| 0 <= i < s.skip(1).len() && i < left - 1 implies #[trigger] s.skip(
            1,
        )[i] >= 128 by {
            assert(s.skip(1)[i] == s[i + 1]);
        }
        lemma_endless_groups(s.skip(1), next, scale * 128, (left - 1) as nat);
    }
}

} // verus!
