//! Declared body lengths.

use crate::error::found;
use crate::error::Error;
use crate::error::Kind;
use crate::error::Reason;
use crate::h3::fields;
use crate::h3::fields::contents;
use crate::h3::fields::decimal;
use crate::h3::fields::fields_of;
use crate::h3::fields::is_key;
use crate::h3::fields::is_plain;
use crate::h3::fields::items;
use crate::h3::fields::split;
use crate::h3::fields::trim_end;
use crate::h3::fields::trim_start;
use crate::h3::fields::values_of;
use http::HeaderMap;
use vstd::prelude::*;
use vstd::string::StringSliceAdditionalSpecFns;

verus! {

/// Whether a byte is a decimal digit.
pub open spec fn digit(b: u8) -> bool {
    48 <= b <= 57
}

/// The number that decimal digits stand for.
pub open spec fn number(s: Seq<u8>) -> nat
    decreases s.len(),
{
    if s.len() == 0 {
        0
    } else {
        (number(s.drop_last()) * 10 + (s.last() - 48)) as nat
    }
}

/// Whether a field value has only characters that can be read as text.
pub open spec fn readable(s: Seq<u8>) -> bool {
    forall|i: int| 0 <= i < s.len() ==> (32 <= #[trigger] s[i] < 127 || s[i] == 9)
}

/// One length of a list.
pub open spec fn one_length(item: Seq<u8>) -> Result<u64, Reason> {
    if item.len() == 0 || exists|i: int| 0 <= i < item.len() && !digit(#[trigger] item[i]) {
        Err(Reason::InvalidLength)
    } else if number(item) > u64::MAX {
        Err(Reason::LengthOverflow)
    } else {
        Ok(number(item) as u64)
    }
}

/// The lengths of a list, after `known`: they must all be the same.
pub open spec fn list_length(items: Seq<Seq<u8>>, known: Option<u64>) -> Result<
    Option<u64>,
    Reason,
>
    decreases items.len(),
{
    if items.len() == 0 {
        Ok(known)
    } else {
        match list_length(items.drop_last(), known) {
            Err(reason) => Err(reason),
            Ok(known) => match one_length(items.last()) {
                Err(reason) => Err(reason),
                Ok(n) => if known is Some && known != Some(n) {
                    Err(Reason::ConflictingLength)
                } else {
                    Ok(Some(n))
                },
            },
        }
    }
}

/// The length that field values declare: each may be a list, and all must be the same.
pub open spec fn declared_length(values: Seq<Seq<u8>>) -> Result<Option<u64>, Reason>
    decreases values.len(),
{
    if values.len() == 0 {
        Ok(None)
    } else {
        match declared_length(values.drop_last()) {
            Err(reason) => Err(reason),
            Ok(known) => if !readable(values.last()) {
                Err(Reason::UnreadableLength)
            } else {
                list_length(items(values.last()), known)
            },
        }
    }
}

/// The length that the fields of a message declare.
pub open spec fn length_of(m: Map<Seq<u8>, Seq<Seq<u8>>>) -> Result<Option<u64>, Reason> {
    declared_length(values_of(m, "content-length".spec_bytes()))
}

proof fn lemma_number_grows(s: Seq<u8>, i: int)
    requires
        0 <= i <= s.len(),
        forall|k: int| 0 <= k < s.len() ==> digit(#[trigger] s[k]),
    ensures
        number(s.take(i)) <= number(s),
    decreases s.len(),
{
    if i == s.len() {
        assert(s.take(i) =~= s);
    } else {
        lemma_number_grows(s.drop_last(), i);
        assert(s.drop_last().take(i) =~= s.take(i));
    }
}

/// Reads one length of a list.
pub(crate) fn read_length(item: &[u8]) -> (r: Result<u64, Reason>)
    ensures
        r == one_length(item@),
{
    if item.len() == 0 {
        return Err(Reason::InvalidLength);
    }
    for i in 0..item.len()
        invariant
            forall|k: int| 0 <= k < i ==> digit(#[trigger] item@[k]),
    {
        if item[i] < 48 || item[i] > 57 {
            assert(!digit(item@[i as int]));
            return Err(Reason::InvalidLength);
        }
    }
    let mut n: u64 = 0;
    assert(item@.take(0) =~= Seq::empty());
    for i in 0..item.len()
        invariant
            item@.len() > 0,
            forall|k: int| 0 <= k < item@.len() ==> digit(#[trigger] item@[k]),
            n == number(item@.take(i as int)),
    {
        let d: u64 = (item[i] - 48) as u64;
        assert(item@.take(i + 1).drop_last() =~= item@.take(i as int));
        assert(number(item@.take(i + 1)) == n * 10 + d);
        proof {
            lemma_number_grows(item@, i + 1);
        }
        match n.checked_mul(10) {
            None => {
                return Err(Reason::LengthOverflow);
            },
            Some(scaled) => match scaled.checked_add(d) {
                None => {
                    return Err(Reason::LengthOverflow);
                },
                Some(next) => {
                    n = next;
                },
            },
        }
    }
    assert(item@.take(item@.len() as int) =~= item@);
    Ok(n)
}

/// Whether a field value can be read as text.
fn is_readable(s: &[u8]) -> (b: bool)
    ensures
        b == readable(s@),
{
    for i in 0..s.len()
        invariant
            forall|k: int| 0 <= k < i ==> (32 <= #[trigger] s@[k] < 127 || s@[k] == 9),
    {
        if !(32 <= s[i] && s[i] < 127 || s[i] == 9) {
            assert(!readable(s@)) by {
                let b = s@[i as int];
            }
            return false;
        }
    }
    true
}

/// Reads the lengths of one field value.
fn read_list(value: &[u8], known: Option<u64>) -> (r: Result<Option<u64>, Reason>)
    ensures
        r == list_length(items(value@), known),
{
    let parts = fields::list(value);
    let ghost all = items(value@);
    assert(contents(parts@).len() == parts@.len());
    let mut length: Option<u64> = known;
    assert(all.take(0) =~= Seq::empty());
    for i in 0..parts.len()
        invariant
            contents(parts@) == all,
            all.len() == parts@.len(),
            all == items(value@),
            list_length(all.take(i as int), known) == Ok::<Option<u64>, Reason>(length),
    {
        assert(all.take(i + 1).drop_last() =~= all.take(i as int));
        assert(all.take(i + 1).last() == parts@[i as int]@);
        proof {
            lemma_failure_stays(all, i + 1, known);
        }
        match read_length(parts[i].as_slice()) {
            Err(reason) => {
                return Err(reason);
            },
            Ok(n) => {
                if let Some(before) = length {
                    if before != n {
                        return Err(Reason::ConflictingLength);
                    }
                }
                length = Some(n);
            },
        }
    }
    assert(all.take(all.len() as int) =~= all);
    Ok(length)
}

proof fn lemma_failure_stays(items: Seq<Seq<u8>>, i: int, known: Option<u64>)
    requires
        0 <= i <= items.len(),
    ensures
        list_length(items.take(i), known) is Err ==> list_length(items, known) == list_length(
            items.take(i),
            known,
        ),
    decreases items.len(),
{
    if i == items.len() {
        assert(items.take(i) =~= items);
    } else {
        lemma_failure_stays(items.drop_last(), i, known);
        assert(items.drop_last().take(i) =~= items.take(i));
    }
}

proof fn lemma_value_failure_stays(values: Seq<Seq<u8>>, i: int)
    requires
        0 <= i <= values.len(),
    ensures
        declared_length(values.take(i)) is Err ==> declared_length(values) == declared_length(
            values.take(i),
        ),
    decreases values.len(),
{
    if i == values.len() {
        assert(values.take(i) =~= values);
    } else {
        lemma_value_failure_stays(values.drop_last(), i);
        assert(values.drop_last().take(i) =~= values.take(i));
    }
}

pub(crate) proof fn lemma_length_name()
    ensures
        is_key("content-length".spec_bytes()),
        is_plain("content-length".spec_bytes()),
{
    reveal_strlit("content-length");
    vstd::string::is_ascii_spec_bytes("content-length");
    assert("content-length".is_ascii());
}

/// The length that a message declares in its `content-length` fields.
pub fn content_length(headers: &HeaderMap) -> (r: Result<Option<u64>, Error>)
    ensures
        match length_of(fields_of(*headers)) {
            Ok(length) => r == Ok::<Option<u64>, Error>(length),
            Err(reason) => r == Err::<Option<u64>, Error>(Error::found(Kind::Http3, reason)),
        },
{
    proof {
        lemma_length_name();
    }
    let values = fields::values(headers, "content-length".as_bytes());
    let ghost all = values_of(fields_of(*headers), "content-length".spec_bytes());
    assert(contents(values@).len() == values@.len());
    let mut length: Option<u64> = None;
    assert(all.take(0) =~= Seq::empty());
    for i in 0..values.len()
        invariant
            all == values_of(fields_of(*headers), "content-length".spec_bytes()),
            contents(values@) == all,
            all.len() == values@.len(),
            declared_length(all.take(i as int)) == Ok::<Option<u64>, Reason>(length),
    {
        assert(all.take(i + 1).drop_last() =~= all.take(i as int));
        assert(all.take(i + 1).last() == values@[i as int]@);
        proof {
            lemma_value_failure_stays(all, i + 1);
        }
        if !is_readable(values[i].as_slice()) {
            return Err(found(Kind::Http3, Reason::UnreadableLength));
        }
        match read_list(values[i].as_slice(), length) {
            Err(reason) => {
                return Err(found(Kind::Http3, reason));
            },
            Ok(next) => {
                length = next;
            },
        }
    }
    assert(all.take(all.len() as int) =~= all);
    Ok(length)
}

/// What is left of a declared length after `size` more bytes.
pub open spec fn consumed(remaining: Option<u64>, size: usize) -> Result<Option<u64>, Reason> {
    match remaining {
        None => Ok(None),
        Some(left) => if size <= left {
            Ok(Some((left - size) as u64))
        } else {
            Err(Reason::BodyTooLong)
        },
    }
}

/// Takes `size` bytes off the declared length, if there is one. A body that is longer than
/// it declared is refused, and the length stays as it was.
pub fn consume_length(remaining: &mut Option<u64>, size: usize) -> (r: Result<(), Reason>)
    ensures
        match consumed(*old(remaining), size) {
            Ok(left) => r is Ok && *final(remaining) == left,
            Err(reason) => r == Err::<(), Reason>(reason) && *final(remaining) == *old(
                remaining,
            ),
        },
{
    if let Some(left) = *remaining {
        match left.checked_sub(size as u64) {
            Some(rest) => {
                *remaining = Some(rest);
            },
            None => {
                return Err(Reason::BodyTooLong);
            },
        }
    }
    Ok(())
}

/// Whether a declared length was not reached.
pub open spec fn is_short(remaining: Option<u64>) -> bool {
    remaining is Some && remaining != Some(0u64)
}

/// Whether a declared length was not reached.
pub fn short(remaining: Option<u64>) -> (b: bool)
    ensures
        b == is_short(remaining),
{
    match remaining {
        Some(n) => n != 0,
        None => false,
    }
}

/// The bytes of some chunks.
pub open spec fn sum(sizes: Seq<usize>) -> nat
    decreases sizes.len(),
{
    if sizes.len() == 0 {
        0
    } else {
        sum(sizes.drop_last()) + sizes.last() as nat
    }
}

/// What is left of a declared length after several chunks.
pub open spec fn consumed_all(remaining: Option<u64>, sizes: Seq<usize>) -> Result<
    Option<u64>,
    Reason,
>
    decreases sizes.len(),
{
    if sizes.len() == 0 {
        Ok(remaining)
    } else {
        match consumed_all(remaining, sizes.drop_last()) {
            Err(reason) => Err(reason),
            Ok(left) => consumed(left, sizes.last()),
        }
    }
}

/// A body passes its declared length exactly if its chunks add up to it: no chunk is
/// refused and nothing is missing at the end.
pub proof fn lemma_length_is_met_exactly(length: u64, sizes: Seq<usize>)
    ensures
        sum(sizes) <= length <==> consumed_all(Some(length), sizes) is Ok,
        sum(sizes) <= length ==> consumed_all(Some(length), sizes) == Ok::<Option<u64>, Reason>(
            Some((length - sum(sizes)) as u64),
        ),
        sum(sizes) == length <==> consumed_all(Some(length), sizes) is Ok && !is_short(
            consumed_all(Some(length), sizes)->Ok_0,
        ),
    decreases sizes.len(),
{
    if sizes.len() > 0 {
        lemma_length_is_met_exactly(length, sizes.drop_last());
    }
}

/// A body without a declared length may have any length.
pub proof fn lemma_undeclared_length_is_free(sizes: Seq<usize>)
    ensures
        consumed_all(None, sizes) == Ok::<Option<u64>, Reason>(None),
    decreases sizes.len(),
{
    if sizes.len() > 0 {
        lemma_undeclared_length_is_free(sizes.drop_last());
    }
}

pub(crate) proof fn lemma_decimal(n: nat)
    ensures
        number(decimal(n)) == n,
        decimal(n).len() > 0,
        forall|i: int| 0 <= i < decimal(n).len() ==> digit(#[trigger] decimal(n)[i]),
    decreases n,
{
    if n >= 10 {
        lemma_decimal(n / 10);
        assert(decimal(n).drop_last() =~= decimal(n / 10));
    } else {
        assert(decimal(n).drop_last() =~= Seq::empty());
        assert(number(decimal(n).drop_last()) == 0);
    }
}

proof fn lemma_plain_item(s: Seq<u8>)
    requires
        s.len() > 0,
        forall|i: int| 0 <= i < s.len() ==> digit(#[trigger] s[i]),
    ensures
        split(s, 44) == seq![s],
    decreases s.len(),
{
    let head = s.drop_last();
    if head.len() > 0 {
        lemma_plain_item(head);
        assert(split(head, 44).last() == head);
        assert(split(s, 44) =~= seq![s]) by {
            assert(head.push(s.last()) =~= s);
        }
    } else {
        assert(split(head, 44) =~= seq![Seq::empty()]);
        assert(digit(s[0]));
        assert(split(head, 44).last().push(s.last()) =~= s);
        assert(split(s, 44) =~= seq![s]);
    }
}

/// A length that is written into the fields is the length that they declare.
pub proof fn lemma_written_length_is_read(m: Map<Seq<u8>, Seq<Seq<u8>>>, n: u64)
    ensures
        length_of(m.insert("content-length".spec_bytes(), seq![decimal(n as nat)])) == Ok::<
            Option<u64>,
            Reason,
        >(Some(n)),
{
    let text = decimal(n as nat);
    lemma_decimal(n as nat);
    lemma_plain_item(text);
    assert(digit(text[0]) && digit(text.last()));
    assert(trim_start(text) == text);
    assert(trim_end(text) == text);
    assert(items(text) =~= seq![text]);
    let values = seq![text];
    assert(values.drop_last() =~= Seq::empty());
    assert(items(text).drop_last() =~= Seq::empty());
    assert(readable(text)) by {
        assert forall|i: int| 0 <= i < text.len() implies (32 <= #[trigger] text[i] < 127
            || text[i] == 9) by {
            assert(digit(text[i]));
        }
    }
    assert(one_length(text) == Ok::<u64, Reason>(n)) by {
        assert forall|i: int| 0 <= i < text.len() implies digit(#[trigger] text[i]) by {}
    }
    assert(list_length(Seq::<Seq<u8>>::empty(), None) == Ok::<Option<u64>, Reason>(None));
    assert(declared_length(Seq::<Seq<u8>>::empty()) == Ok::<Option<u64>, Reason>(None));
    assert(list_length(items(text), None) == Ok::<Option<u64>, Reason>(Some(n)));
    assert(declared_length(values) == Ok::<Option<u64>, Reason>(Some(n)));
}

} // verus!
