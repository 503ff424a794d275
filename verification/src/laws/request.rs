//! Requests and their fields: faults, stripping, and declared lengths.

use crate::error::Reason;
use crate::h3::fields::decimal;
use crate::h3::fields::fields_of;
use crate::h3::fields::is_key;
use crate::h3::fields::items;
use crate::h3::fields::lower;
use crate::h3::fields::split;
use crate::h3::fields::trim;
use crate::h3::fields::trim_end;
use crate::h3::fields::trim_start;
use crate::h3::fields::values_of;
use crate::h3::length::consumed;
use crate::h3::length::declared_length;
use crate::h3::length::is_short;
use crate::h3::length::length_of;
use crate::h3::length::list_length;
use crate::h3::length::number;
use crate::h3::length::one_length;
use crate::h3::request::hop_by_hop;
use crate::h3::request::listed;
use crate::h3::request::stripped;
use crate::h3::request::HeadView;
use crate::h3::request::Method;
use crate::h3::request::RequestHead;
use vstd::prelude::*;
use vstd::string::StringSliceAdditionalSpecFns;

verus! {

/// The pieces of some bytes, with the separator between them.
pub open spec fn rejoined(pieces: Seq<Seq<u8>>, sep: u8) -> Seq<u8>
    decreases pieces.len(),
{
    if pieces.len() <= 1 {
        pieces[0]
    } else {
        rejoined(pieces.drop_last(), sep) + seq![sep] + pieces.last()
    }
}

/// Cutting loses nothing: the pieces with separators between them are the bytes, and no piece
/// holds a separator.
pub proof fn lemma_cutting_loses_nothing(s: Seq<u8>, sep: u8)
    ensures
        split(s, sep).len() > 0,
        rejoined(split(s, sep), sep) == s,
        forall|i: int, k: int|
            0 <= i < split(s, sep).len() && 0 <= k < split(s, sep)[i].len()
                ==> #[trigger] split(s, sep)[i][k] != sep,
    decreases s.len(),
{
    let pieces = split(s, sep);
    if s.len() == 0 {
        assert(rejoined(pieces, sep) =~= s);
    } else {
        let head = split(s.drop_last(), sep);
        lemma_cutting_loses_nothing(s.drop_last(), sep);
        if s.last() == sep {
            assert(pieces.drop_last() =~= head);
            assert(rejoined(pieces, sep) =~= s);
        } else {
            let grown = head.last().push(s.last());
            assert(pieces.drop_last() =~= head.drop_last());
            assert(pieces.last() == grown);
            if head.len() == 1 {
                assert(pieces[0] =~= s);
            } else {
                assert(rejoined(pieces, sep) =~= rejoined(head, sep).push(s.last()));
                assert(rejoined(pieces, sep) =~= s);
            }
        }
    }
}

/// Trimming takes spaces and tabs off both ends, all of them, and nothing else.
pub proof fn lemma_trimming_takes_blanks(s: Seq<u8>)
    ensures
        ({
            let t = trim(s);
            &&& t.len() > 0 ==> t[0] != 32 && t[0] != 9 && t.last() != 32 && t.last() != 9
            &&& exists|i: int, j: int|
                {
                    &&& 0 <= i <= j <= s.len()
                    &&& t == #[trigger] s.subrange(i, j)
                    &&& forall|k: int| 0 <= k < i || j <= k < s.len() ==> (#[trigger] s[k] == 32
                        || s[k] == 9)
                }
        }),
{
    let i = lemma_trim_start(s);
    let front = trim_start(s);
    let n = lemma_trim_end(front);
    let t = trim(s);
    assert(t == s.subrange(i, i + n)) by {
        assert(t =~= s.subrange(i, i + n));
    }
    assert forall|k: int| 0 <= k < i || i + n <= k < s.len() implies (#[trigger] s[k] == 32 || s[k]
        == 9) by {
        if k >= i + n {
            assert(front[k - i] == s[k]);
        }
    }
    if t.len() > 0 {
        assert(t[0] == front[0]);
    }
}

proof fn lemma_trim_start(s: Seq<u8>) -> (i: int)
    ensures
        0 <= i <= s.len(),
        trim_start(s) == s.skip(i),
        forall|k: int| 0 <= k < i ==> (#[trigger] s[k] == 32 || s[k] == 9),
        trim_start(s).len() > 0 ==> trim_start(s)[0] != 32 && trim_start(s)[0] != 9,
    decreases s.len(),
{
    if s.len() > 0 && (s[0] == 32 || s[0] == 9) {
        let rest = s.drop_first();
        let i = lemma_trim_start(rest);
        assert(rest.skip(i) =~= s.skip(i + 1));
        assert forall|k: int| 0 <= k < i + 1 implies (#[trigger] s[k] == 32 || s[k] == 9) by {
            if k > 0 {
                assert(rest[k - 1] == s[k]);
            }
        }
        i + 1
    } else {
        assert(s.skip(0) =~= s);
        0
    }
}

proof fn lemma_trim_end(s: Seq<u8>) -> (n: int)
    ensures
        0 <= n <= s.len(),
        trim_end(s) == s.take(n),
        forall|k: int| n <= k < s.len() ==> (#[trigger] s[k] == 32 || s[k] == 9),
        trim_end(s).len() > 0 ==> trim_end(s).last() != 32 && trim_end(s).last() != 9,
    decreases s.len(),
{
    if s.len() > 0 && (s.last() == 32 || s.last() == 9) {
        let rest = s.drop_last();
        let n = lemma_trim_end(rest);
        assert(rest.take(n) =~= s.take(n));
        assert forall|k: int| n <= k < s.len() implies (#[trigger] s[k] == 32 || s[k] == 9) by {
            if k < s.len() - 1 {
                assert(rest[k] == s[k]);
            }
        }
        n
    } else {
        assert(s.take(s.len() as int) =~= s);
        s.len() as int
    }
}

/// The items of a list are what stands between its commas, without the blanks around it.
pub proof fn lemma_items_stand_between_commas(s: Seq<u8>, i: int)
    ensures
        items(s).len() == split(s, 0x2c).len(),
        0 <= i < items(s).len() ==> items(s)[i] == trim(split(s, 0x2c)[i]),
{
}

/// Lower case changes the letters from A to Z and no other byte.
pub proof fn lemma_lower_case(s: Seq<u8>, i: int)
    requires
        0 <= i < s.len(),
    ensures
        lower(s).len() == s.len(),
        0x41 <= s[i] <= 0x5a ==> lower(s)[i] == s[i] + 0x20,
        !(0x41 <= s[i] <= 0x5a) ==> lower(s)[i] == s[i],
{
}

/// Digits are read from the left, ten times what came before each time; and a number is
/// written with the digits that are read as it.
pub proof fn lemma_digits_make_the_number(s: Seq<u8>, b: u8, n: nat)
    requires
        0x30 <= b <= 0x39,
    ensures
        number(Seq::empty()) == 0,
        number(s.push(b)) == 10 * number(s) + (b - 0x30),
        number(decimal(n)) == n,
        n > 0 ==> decimal(n)[0] != 0x30,
        n == 0 ==> decimal(n) == seq![0x30u8],
{
    assert(s.push(b).drop_last() =~= s);
    crate::h3::length::lemma_decimal(n);
    lemma_no_leading_zero(n);
}

proof fn lemma_no_leading_zero(n: nat)
    ensures
        decimal(n).len() > 0,
        n > 0 ==> decimal(n)[0] != 0x30,
    decreases n,
{
    if n >= 10 {
        lemma_no_leading_zero(n / 10);
    }
}

/// Whether a value is a list of the number `n` alone, as often as it likes: text whose items
/// are all decimal digits for it.
pub open spec fn says(value: Seq<u8>, n: u64) -> bool {
    &&& forall|i: int|
        0 <= i < value.len() ==> (0x20 <= #[trigger] value[i] <= 0x7e || value[i] == 9)
    &&& forall|j: int|
        0 <= j < items(value).len() ==> (#[trigger] items(value)[j]).len() > 0 && number(
            items(value)[j],
        ) == n
    &&& forall|j: int, k: int|
        0 <= j < items(value).len() && 0 <= k < items(value)[j].len() ==> 0x30 <= #[trigger] items(
            value,
        )[j][k] <= 0x39
}

proof fn lemma_one_length(item: Seq<u8>)
    ensures
        forall|n: u64|
            one_length(item) == Ok::<u64, Reason>(n) <==> {
                &&& item.len() > 0 && number(item) == n
                &&& forall|k: int| 0 <= k < item.len() ==> 0x30 <= #[trigger] item[k] <= 0x39
            },
{
}

proof fn lemma_list_of_one_number(list: Seq<Seq<u8>>, known: Option<u64>, n: u64)
    requires
        list.len() > 0,
    ensures
        list_length(list, known) == Ok::<Option<u64>, Reason>(Some(n)) <==> {
            &&& known is None || known == Some(n)
            &&& forall|j: int|
                0 <= j < list.len() ==> one_length(#[trigger] list[j]) == Ok::<u64, Reason>(n)
        },
        list_length(list, known) != Ok::<Option<u64>, Reason>(None),
    decreases list.len(),
{
    let head = list.drop_last();
    if head.len() > 0 {
        lemma_list_of_one_number(head, known, n);
        match list_length(head, known) {
            Ok(Some(m)) => {
                lemma_list_of_one_number(head, known, m);
                if m != n {
                    assert(one_length(head[0]) == Ok::<u64, Reason>(m));
                    assert(list[0] == head[0]);
                }
            },
            _ => {},
        }
        if list_length(list, known) == Ok::<Option<u64>, Reason>(Some(n)) {
            assert forall|j: int| 0 <= j < list.len() implies one_length(#[trigger] list[j])
                == Ok::<u64, Reason>(n) by {
                if j < head.len() {
                    assert(list[j] == head[j]);
                }
            }
        }
        if (known is None || known == Some(n)) && forall|j: int|
            0 <= j < list.len() ==> one_length(#[trigger] list[j]) == Ok::<u64, Reason>(n) {
            assert forall|j: int| 0 <= j < head.len() implies one_length(#[trigger] head[j])
                == Ok::<u64, Reason>(n) by {
                assert(list[j] == head[j]);
            }
            assert(one_length(list[list.len() - 1]) == Ok::<u64, Reason>(n));
        }
    } else {
        assert(list_length(head, known) == Ok::<Option<u64>, Reason>(known));
        assert(list.last() == list[0]);
        if list_length(list, known) == Ok::<Option<u64>, Reason>(Some(n)) {
            assert forall|j: int| 0 <= j < list.len() implies one_length(#[trigger] list[j])
                == Ok::<u64, Reason>(n) by {
                assert(j == 0);
            }
        }
    }
}

/// Fields declare the length `n` exactly if there is a value, and every value is a list of
/// nothing but `n`. They declare none exactly if there is no value; in every other case they
/// are faulty.
pub proof fn lemma_declared_lengths_agree(values: Seq<Seq<u8>>, n: u64)
    ensures
        declared_length(values) == Ok::<Option<u64>, Reason>(None) <==> values.len() == 0,
        declared_length(values) == Ok::<Option<u64>, Reason>(Some(n)) <==> values.len() > 0
            && forall|i: int| 0 <= i < values.len() ==> says(#[trigger] values[i], n),
    decreases values.len(),
{
    if values.len() > 0 {
        let head = values.drop_last();
        let last = values.last();
        lemma_declared_lengths_agree(head, n);
        lemma_cutting_loses_nothing(last, 0x2c);
        assert(items(last).len() > 0);
        assert(values[values.len() - 1] == last);
        assert forall|i: int| 0 <= i < head.len() implies values[i] == head[i] by {
        }
        if let Ok(known) = declared_length(head) {
            if let Some(m) = known {
                lemma_declared_lengths_agree(head, m);
            }
            lemma_list_of_one_number(items(last), known, n);
            lemma_says(last, n);
            if known == Some(n) || known is None {
                if says(last, n) {
                    assert forall|j: int| 0 <= j < items(last).len() implies one_length(
                        #[trigger] items(last)[j],
                    ) == Ok::<u64, Reason>(n) by {
                    }
                }
            }
            if known is Some && known != Some(n) && head.len() > 0 {
                let m = known->0;
                assert(says(head[0], m));
                assert(values[0] == head[0]);
                lemma_cutting_loses_nothing(head[0], 0x2c);
                assert(items(head[0]).len() > 0);
                assert(number(items(head[0])[0]) == m);
                assert(!says(values[0], n));
            }
        } else {
            if forall|i: int| 0 <= i < values.len() ==> says(#[trigger] values[i], n) {
                assert forall|i: int| 0 <= i < head.len() implies says(#[trigger] head[i], n) by {
                    assert(values[i] == head[i]);
                }
            }
        }
        if declared_length(values) == Ok::<Option<u64>, Reason>(Some(n)) {
            assert forall|i: int| 0 <= i < values.len() implies says(#[trigger] values[i], n) by {
                if i < head.len() {
                    assert(values[i] == head[i]);
                }
            }
        }
        if forall|i: int| 0 <= i < values.len() ==> says(#[trigger] values[i], n) {
            assert(says(last, n));
            assert forall|i: int| 0 <= i < head.len() implies says(#[trigger] head[i], n) by {
                assert(values[i] == head[i]);
            }
        }
    }
}

proof fn lemma_says(value: Seq<u8>, n: u64)
    ensures
        says(value, n) <==> {
            &&& crate::h3::length::readable(value)
            &&& forall|j: int|
                0 <= j < items(value).len() ==> one_length(#[trigger] items(value)[j]) == Ok::<
                    u64,
                    Reason,
                >(n)
        },
{
    if says(value, n) {
        assert forall|j: int| 0 <= j < items(value).len() implies one_length(
            #[trigger] items(value)[j],
        ) == Ok::<u64, Reason>(n) by {
            let item = items(value)[j];
            assert forall|k: int| 0 <= k < item.len() implies 0x30 <= #[trigger] item[k]
                <= 0x39 by {
                assert(items(value)[j][k] == item[k]);
            }
        }
    }
    if crate::h3::length::readable(value) && forall|j: int|
        0 <= j < items(value).len() ==> one_length(#[trigger] items(value)[j]) == Ok::<
            u64,
            Reason,
        >(n) {
        assert forall|j: int, k: int|
            0 <= j < items(value).len() && 0 <= k < items(value)[j].len() implies 0x30
            <= #[trigger] items(value)[j][k] <= 0x39 by {
            assert(one_length(items(value)[j]) == Ok::<u64, Reason>(n));
        }
    }
}

/// Why the first value of a message declares no length: it is no text, an item is not made of
/// digits, an item is too large for 64 bits, or an item differs from the ones before it.
pub proof fn lemma_faulty_lengths_have_their_reasons(item: Seq<u8>, value: Seq<u8>)
    ensures
        ({
            let digits = item.len() > 0 && forall|k: int|
                0 <= k < item.len() ==> 0x30 <= #[trigger] item[k] <= 0x39;
            &&& !digits ==> one_length(item) == Err::<u64, Reason>(Reason::InvalidLength)
            &&& digits && number(item) > 0xffff_ffff_ffff_ffff ==> one_length(item) == Err::<
                u64,
                Reason,
            >(Reason::LengthOverflow)
            &&& digits && number(item) <= 0xffff_ffff_ffff_ffff ==> one_length(item) == Ok::<
                u64,
                Reason,
            >(number(item) as u64)
        }),
        (exists|i: int|
            0 <= i < value.len() && !(0x20 <= #[trigger] value[i] <= 0x7e || value[i] == 9))
            ==> declared_length(seq![value]) == Err::<Option<u64>, Reason>(
            Reason::UnreadableLength,
        ),
{
    assert(seq![value].drop_last() =~= Seq::empty());
    assert(declared_length(Seq::empty()) == Ok::<Option<u64>, Reason>(None));
}

/// An item that differs from the number known so far conflicts with it.
pub proof fn lemma_different_lengths_conflict(item: Seq<u8>, known: u64, n: u64)
    requires
        one_length(item) == Ok::<u64, Reason>(n),
        n != known,
    ensures
        list_length(seq![item], Some(known)) == Err::<Option<u64>, Reason>(
            Reason::ConflictingLength,
        ),
{
    assert(seq![item].drop_last() =~= Seq::empty());
    assert(list_length(Seq::empty(), Some(known)) == Ok::<Option<u64>, Reason>(Some(known)));
}

/// The declared length is that of the fields named `content-length`.
pub proof fn lemma_length_is_that_of_its_fields(m: Map<Seq<u8>, Seq<Seq<u8>>>)
    ensures
        m.contains_key("content-length".spec_bytes()) ==> length_of(m) == declared_length(
            m["content-length".spec_bytes()],
        ),
        !m.contains_key("content-length".spec_bytes()) ==> length_of(m) == Ok::<
            Option<u64>,
            Reason,
        >(None),
{
}

/// A declared length goes down by every piece, and a piece that is larger than what is left is
/// refused. It was not met exactly if something is left.
pub proof fn lemma_lengths_go_down(left: u64, size: usize)
    ensures
        size <= left ==> consumed(Some(left), size) == Ok::<Option<u64>, Reason>(
            Some((left - size) as u64),
        ),
        size > left ==> consumed(Some(left), size) == Err::<Option<u64>, Reason>(
            Reason::BodyTooLong,
        ),
        consumed(None, size) == Ok::<Option<u64>, Reason>(None),
        is_short(Some(left)) == (left > 0),
        !is_short(None),
{
}

/// What makes a request faulty, the first reason that holds: a protocol without CONNECT; no
/// authority, or no scheme where it is not a plain CONNECT; a `Host` field whose first value
/// is not the authority; a declared length that cannot be read. Nothing else does.
pub proof fn lemma_faults_have_their_reasons(request: HeadView)
    ensures
        ({
            let connect = request.method == Method::Connect;
            let protocol = request.protocol && !connect;
            let missing = request.authority is None || (!request.scheme && !(connect
                && !request.protocol));
            let name = "host".spec_bytes();
            let hosts = values_of(request.fields, name);
            let conflict = hosts.len() > 0 && request.authority != Some(hosts[0]);
            &&& protocol ==> request.fault() == Some(Reason::ProtocolWithoutConnect)
            &&& !protocol && missing ==> request.fault() == Some(Reason::MissingSchemeOrAuthority)
            &&& !protocol && !missing && conflict ==> request.fault() == Some(
                Reason::HostConflict,
            )
            &&& !protocol && !missing && !conflict ==> match length_of(request.fields) {
                Ok(_) => request.fault() is None,
                Err(reason) => request.fault() == Some(reason),
            }
        }),
{
}

/// Fields that are bound to the connection are gone: the five that always are, whatever the
/// `Connection` fields list, and `TE` unless every one of its values asks for trailers alone.
/// Every other field is kept with all its values.
pub proof fn lemma_stripping_takes_these_fields(m: Map<Seq<u8>, Seq<Seq<u8>>>, name: Seq<u8>)
    ensures
        ({
            let options = values_of(m, "connection".spec_bytes());
            let te = values_of(m, "te".spec_bytes());
            let bound = {
                ||| name == "connection".spec_bytes()
                ||| name == "keep-alive".spec_bytes()
                ||| name == "proxy-connection".spec_bytes()
                ||| name == "transfer-encoding".spec_bytes()
                ||| name == "upgrade".spec_bytes()
            };
            let asked = (forall|k: int| 0 <= k < name.len() ==> #[trigger] name[k] != 0)
                && exists|i: int, j: int|
                0 <= i < options.len() && 0 <= j < items(options[i]).len() && lower(
                    #[trigger] items(options[i])[j],
                ) == name;
            let refused = name == "te".spec_bytes() && exists|i: int|
                0 <= i < te.len() && lower(#[trigger] te[i]) != "trailers".spec_bytes();
            &&& bound || asked || refused ==> !stripped(m).contains_key(name)
            &&& !bound && !asked && !refused ==> {
                &&& stripped(m).contains_key(name) == m.contains_key(name)
                &&& m.contains_key(name) ==> stripped(m)[name] == m[name]
            }
        }),
{
    assert(is_key(name) == forall|k: int| 0 <= k < name.len() ==> #[trigger] name[k] != 0);
    let options = values_of(m, "connection".spec_bytes());
    let asked = (forall|k: int| 0 <= k < name.len() ==> #[trigger] name[k] != 0) && exists|
        i: int,
        j: int,
    |
        0 <= i < options.len() && 0 <= j < items(options[i]).len() && lower(
            #[trigger] items(options[i])[j],
        ) == name;
    assert(listed(options, name) == asked);
    let te = values_of(m, "te".spec_bytes());
    assert(hop_by_hop(m).contains(name) == {
        ||| name == "connection".spec_bytes()
        ||| name == "keep-alive".spec_bytes()
        ||| name == "proxy-connection".spec_bytes()
        ||| name == "transfer-encoding".spec_bytes()
        ||| name == "upgrade".spec_bytes()
        ||| asked
        ||| name == "te".spec_bytes() && exists|i: int|
            0 <= i < te.len() && lower(#[trigger] te[i]) != "trailers".spec_bytes()
    });
}

/// A request is sent with its fields stripped. Its size is announced in `content-length` if it
/// is known, nothing is declared, the method is not CONNECT, and there is a body or the
/// method is not one of those that normally have none. Nothing else changes.
pub proof fn lemma_requests_are_sent_as_they_are(request: HeadView, n: u64)
    requires
        length_of(stripped(request.fields)) is Ok,
    ensures
        ({
            let kept = stripped(request.fields);
            let sent = request.as_sent();
            let declared = length_of(kept) != Ok::<Option<u64>, Reason>(None);
            let usual = request.method == Method::Other || request.method == Method::Connect;
            let silent = declared || request.method == Method::Connect || request.size is None || (
            request.size == Some(0u64) && !usual);
            &&& silent ==> sent.fields == kept
            &&& !silent && request.size == Some(n) ==> sent.fields == kept.insert(
                "content-length".spec_bytes(),
                seq![decimal(n as nat)],
            )
            &&& request.body_length() == if declared {
                length_of(kept)->Ok_0
            } else if request.method == Method::Connect {
                None
            } else {
                request.size
            }
            &&& sent == (HeadView { fields: sent.fields, ..request })
        }),
{
}

/// What is said of a request is what its head holds.
pub proof fn lemma_requests_are_what_their_heads_hold(head: RequestHead)
    ensures
        head@.method == head.method,
        head@.scheme == head.scheme,
        head@.authority is Some <==> head.authority is Some,
        head.authority is Some ==> head@.authority == Some((head.authority->0)@),
        head@.protocol == head.protocol && head@.datagram == head.datagram,
        head@.end_stream == head.end_stream && head@.size == head.size,
        head@.fields == fields_of(head.headers),
{
}

/// Lengths are read value by value and item by item, and the first fault counts.
pub proof fn lemma_the_first_fault_counts(
    values: Seq<Seq<u8>>,
    value: Seq<u8>,
    list: Seq<Seq<u8>>,
    item: Seq<u8>,
    known: Option<u64>,
)
    ensures
        ({
            let text = forall|i: int|
                0 <= i < value.len() ==> (0x20 <= #[trigger] value[i] <= 0x7e || value[i] == 9);
            let before = declared_length(values);
            let after = declared_length(values.push(value));
            &&& before is Err ==> after == before
            &&& before is Ok && !text ==> after == Err::<Option<u64>, Reason>(
                Reason::UnreadableLength,
            )
            &&& before is Ok && text ==> after == list_length(items(value), before->Ok_0)
        }),
        ({
            let before = list_length(list, known);
            let after = list_length(list.push(item), known);
            &&& before is Err ==> after == before
            &&& before is Ok && one_length(item) is Err ==> after is Err && after->Err_0
                == one_length(item)->Err_0
            &&& before is Ok && one_length(item) is Ok && (before->Ok_0 is None || before->Ok_0
                == Some(one_length(item)->Ok_0)) ==> after == Ok::<Option<u64>, Reason>(
                Some(one_length(item)->Ok_0),
            )
            &&& before is Ok && one_length(item) is Ok && before->Ok_0 is Some && before->Ok_0
                != Some(one_length(item)->Ok_0) ==> after == Err::<Option<u64>, Reason>(
                Reason::ConflictingLength,
            )
        }),
        list_length(Seq::empty(), known) == Ok::<Option<u64>, Reason>(known),
{
    assert(values.push(value).drop_last() =~= values);
    assert(list.push(item).drop_last() =~= list);
    assert(crate::h3::length::readable(value) == forall|i: int|
        0 <= i < value.len() ==> (0x20 <= #[trigger] value[i] <= 0x7e || value[i] == 9));
}

} // verus!
