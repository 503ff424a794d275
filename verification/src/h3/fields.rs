//! Header fields, taken from the `http` crate.
//!
//! [`HeaderMap`] is opaque to the verifier. [`fields_of`] names what a map holds, and the
//! functions below state what the operations that the library uses do to it.

use http::header::HeaderName;
use http::header::HeaderValue;
use http::HeaderMap;
use vstd::prelude::*;

verus! {

#[verifier::external_type_specification]
#[verifier::external_body]
#[verifier::reject_recursive_types(T)]
pub struct ExHeaderMap<T>(http::HeaderMap<T>);

#[verifier::external_type_specification]
#[verifier::external_body]
pub struct ExHeaderValue(http::header::HeaderValue);

/// The fields of a map: for each name, in lower case, its values in the order in which
/// they were added.
pub uninterp spec fn fields_of(h: HeaderMap) -> Map<Seq<u8>, Seq<Seq<u8>>>;

/// A letter in lower case; any other byte as it is.
pub open spec fn lower_byte(b: u8) -> u8 {
    if 65 <= b <= 90 {
        (b + 32) as u8
    } else {
        b
    }
}

/// Bytes with their letters in lower case.
pub open spec fn lower(s: Seq<u8>) -> Seq<u8> {
    s.map_values(|b: u8| lower_byte(b))
}

/// The values of a name; none if the name does not occur.
pub open spec fn values_of(m: Map<Seq<u8>, Seq<Seq<u8>>>, name: Seq<u8>) -> Seq<Seq<u8>> {
    if m.contains_key(name) {
        m[name]
    } else {
        Seq::empty()
    }
}

/// The bytes of each item.
pub open spec fn contents(v: Seq<Vec<u8>>) -> Seq<Seq<u8>> {
    v.map_values(|item: Vec<u8>| item@)
}

/// A number in decimal digits.
pub open spec fn decimal(n: nat) -> Seq<u8>
    decreases n,
{
    if n < 10 {
        seq![(48 + n) as u8]
    } else {
        decimal(n / 10).push((48 + n % 10) as u8)
    }
}

/// Whether some bytes can be looked up as a name: none of them is zero. A map can hold a
/// long name in which a zero stands for a byte that was not allowed, and no key finds it.
pub open spec fn is_key(name: Seq<u8>) -> bool {
    forall|i: int| 0 <= i < name.len() ==> #[trigger] name[i] != 0
}

/// Whether a name consists of up to 64 lower-case letters, digits and dashes.
pub open spec fn is_plain(name: Seq<u8>) -> bool {
    &&& 0 < name.len() <= 64
    &&& forall|i: int|
        0 <= i < name.len() ==> (97 <= #[trigger] name[i] <= 122 || 48 <= name[i] <= 57
            || name[i] == 45)
}

/// Calls `HeaderMap::get_all`: the values of a name, in the order in which they were added.
/// The key is made with `HeaderName::from_lowercase`. What that refuses, such as a capital
/// letter, stands in the names of no map, except for the zero byte.
#[verifier::external_body]
pub(crate) fn values(h: &HeaderMap, name: &[u8]) -> (v: Vec<Vec<u8>>)
    requires
        is_key(name@),
    ensures
        contents(v@) == values_of(fields_of(*h), name@),
{
    match HeaderName::from_lowercase(name) {
        Ok(name) => h.get_all(name).iter().map(|v| v.as_bytes().to_vec()).collect(),
        Err(_) => Vec::new(),
    }
}

/// Calls `HeaderMap::contains_key`: whether a name has a value. The key is made as in
/// [`values`].
#[verifier::external_body]
pub(crate) fn contains(h: &HeaderMap, name: &[u8]) -> (b: bool)
    requires
        is_key(name@),
    ensures
        b == (values_of(fields_of(*h), name@).len() > 0),
{
    match HeaderName::from_lowercase(name) {
        Ok(name) => h.contains_key(name),
        Err(_) => false,
    }
}

/// Calls `HeaderMap::remove`: all values of a name leave the map, and nothing else changes.
/// The key is made as in [`values`].
#[verifier::external_body]
pub(crate) fn remove(h: &mut HeaderMap, name: &[u8])
    requires
        is_key(name@),
    ensures
        fields_of(*final(h)) == fields_of(*old(h)).remove(name@),
{
    if let Ok(name) = HeaderName::from_lowercase(name) {
        h.remove(name);
    }
}

/// A map with fewer names than this can always take another one. It fails only when its
/// table of 32768 slots would have to grow: when the names fill a fifth of the table and
/// their hashes collide, or when they fill three quarters of it.
pub const ROOMY: usize = 6554;

/// Calls `HeaderMap::try_insert` with a number in decimal digits, which replaces all values
/// of a name. A map of at least [`ROOMY`] names can be unable to take another one; it then
/// stays as it is. Which of them are is not stated: it depends on the table's size and on
/// earlier collisions.
#[verifier::external_body]
pub(crate) fn insert_number(h: &mut HeaderMap, name: &[u8], n: u64) -> (done: bool)
    requires
        is_plain(name@),
    ensures
        done ==> fields_of(*final(h)) == fields_of(*old(h)).insert(
            name@,
            seq![decimal(n as nat)],
        ),
        !done ==> fields_of(*final(h)) == fields_of(*old(h)),
        fields_of(*old(h)).dom().len() < ROOMY ==> done,
{
    match HeaderName::from_lowercase(name) {
        Ok(name) => h.try_insert(name, HeaderValue::from(n)).is_ok(),
        Err(_) => false,
    }
}

/// Reads a name: its letters in lower case. Bytes with a zero among them are no name.
pub(crate) fn read_name(s: &[u8]) -> (name: Option<Vec<u8>>)
    ensures
        match name {
            Some(name) => is_key(s@) && name@ == lower(s@) && is_key(name@),
            None => !is_key(s@),
        },
{
    let mut name: Vec<u8> = Vec::new();
    for i in 0..s.len()
        invariant
            name@ == lower(s@.take(i as int)),
            forall|k: int| 0 <= k < i ==> #[trigger] s@[k] != 0,
            forall|k: int| 0 <= k < i ==> #[trigger] name@[k] != 0,
    {
        let b: u8 = s[i];
        if b == 0 {
            assert(s@[i as int] == 0);
            return None;
        }
        let small: u8 = if 65 <= b && b <= 90 {
            b + 32
        } else {
            b
        };
        name.push(small);
        assert(name@ =~= lower(s@.take(i + 1)));
    }
    assert(s@.take(s@.len() as int) =~= s@);
    Some(name)
}

/// Bytes cut at every `sep`.
pub open spec fn split(s: Seq<u8>, sep: u8) -> Seq<Seq<u8>>
    decreases s.len(),
{
    if s.len() == 0 {
        seq![Seq::empty()]
    } else {
        let head = split(s.drop_last(), sep);
        if s.last() == sep {
            head.push(Seq::empty())
        } else {
            head.drop_last().push(head.last().push(s.last()))
        }
    }
}

/// Whether a byte is a space or a tab.
pub open spec fn blank(b: u8) -> bool {
    b == 32 || b == 9
}

/// Bytes without the spaces and tabs at their front.
pub open spec fn trim_start(s: Seq<u8>) -> Seq<u8>
    decreases s.len(),
{
    if s.len() > 0 && blank(s[0]) {
        trim_start(s.drop_first())
    } else {
        s
    }
}

/// Bytes without the spaces and tabs at their end.
pub open spec fn trim_end(s: Seq<u8>) -> Seq<u8>
    decreases s.len(),
{
    if s.len() > 0 && blank(s.last()) {
        trim_end(s.drop_last())
    } else {
        s
    }
}

/// Bytes without the spaces and tabs around them.
pub open spec fn trim(s: Seq<u8>) -> Seq<u8> {
    trim_end(trim_start(s))
}

/// The items of a list whose items are separated by commas.
pub open spec fn items(s: Seq<u8>) -> Seq<Seq<u8>> {
    split(s, 44).map_values(|item: Seq<u8>| trim(item))
}

/// Removes the spaces and tabs around some bytes.
fn trimmed(s: &[u8]) -> (t: Vec<u8>)
    ensures
        t@ == trim(s@),
{
    let mut i: usize = 0;
    assert(s@.skip(0) =~= s@);
    while i < s.len() && (s[i] == 32 || s[i] == 9)
        invariant
            i <= s@.len(),
            trim_start(s@.skip(i as int)) == trim_start(s@),
        decreases s@.len() - i,
    {
        assert(s@.skip(i as int).drop_first() =~= s@.skip(i + 1));
        i = i + 1;
    }
    assert(trim_start(s@) == s@.skip(i as int));
    let mut n: usize = s.len();
    assert(s@.subrange(i as int, n as int) =~= s@.skip(i as int));
    while i < n && (s[n - 1] == 32 || s[n - 1] == 9)
        invariant
            i <= n <= s@.len(),
            trim_end(s@.subrange(i as int, n as int)) == trim(s@),
        decreases n,
    {
        assert(s@.subrange(i as int, n as int).drop_last() =~= s@.subrange(i as int, n - 1));
        n = n - 1;
    }
    vstd::slice::slice_to_vec(vstd::slice::slice_subrange(s, i, n))
}

/// Cuts bytes at every `sep`.
pub(crate) fn cut(s: &[u8], sep: u8) -> (v: Vec<Vec<u8>>)
    ensures
        contents(v@) == split(s@, sep),
{
    let mut done: Vec<Vec<u8>> = Vec::new();
    let mut current: Vec<u8> = Vec::new();
    assert(s@.take(0) =~= Seq::empty());
    assert(contents(done@).push(current@) =~= seq![Seq::empty()]);
    for i in 0..s.len()
        invariant
            contents(done@).push(current@) == split(s@.take(i as int), sep),
    {
        assert(s@.take(i + 1).drop_last() =~= s@.take(i as int));
        assert(s@.take(i + 1).last() == s@[i as int]);
        let ghost before = contents(done@).push(current@);
        let ghost head = contents(done@);
        if s[i] == sep {
            let ghost cut = current@;
            done.push(current);
            current = Vec::new();
            assert(contents(done@) =~= head.push(cut));
            assert(current@ =~= Seq::<u8>::empty());
        } else {
            let ghost last = current@;
            current.push(s[i]);
            assert(before.drop_last() =~= head);
            assert(before.last() == last);
        }
    }
    assert(s@.take(s@.len() as int) =~= s@);
    let ghost head = contents(done@);
    let ghost last = current@;
    done.push(current);
    assert(contents(done@) =~= head.push(last));
    done
}

/// Reads the items of a list.
pub(crate) fn list(s: &[u8]) -> (v: Vec<Vec<u8>>)
    ensures
        contents(v@) == items(s@),
{
    let pieces = cut(s, 44);
    let mut v: Vec<Vec<u8>> = Vec::new();
    for i in 0..pieces.len()
        invariant
            contents(pieces@) == split(s@, 44),
            contents(v@) == items(s@).take(i as int),
    {
        let item = trimmed(pieces[i].as_slice());
        assert(contents(pieces@)[i as int] == pieces@[i as int]@);
        let ghost before = contents(v@);
        let ghost text = item@;
        v.push(item);
        assert(contents(v@) =~= before.push(text));
        assert(items(s@).take(i + 1) =~= items(s@).take(i as int).push(text));
    }
    assert(contents(pieces@).len() == pieces@.len());
    assert(items(s@).take(pieces@.len() as int) =~= items(s@));
    v
}

/// Whether two byte strings are equal except for the case of letters.
pub(crate) fn same_ignoring_case(a: &[u8], b: &[u8]) -> (r: bool)
    ensures
        r == (lower(a@) == lower(b@)),
{
    if a.len() != b.len() {
        assert(lower(a@).len() != lower(b@).len());
        return false;
    }
    for i in 0..a.len()
        invariant
            a@.len() == b@.len(),
            forall|k: int| 0 <= k < i ==> lower_byte(a@[k]) == lower_byte(b@[k]),
    {
        let x: u8 = if 65 <= a[i] && a[i] <= 90 {
            a[i] + 32
        } else {
            a[i]
        };
        let y: u8 = if 65 <= b[i] && b[i] <= 90 {
            b[i] + 32
        } else {
            b[i]
        };
        if x != y {
            assert(lower(a@)[i as int] != lower(b@)[i as int]);
            return false;
        }
    }
    assert(lower(a@) =~= lower(b@));
    true
}

} // verus!
