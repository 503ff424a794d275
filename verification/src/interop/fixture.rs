//! The header fixture that both sides of a comparison share: a text file with a section of
//! request fields and one of response fields.

use crate::h3::fields;
use crate::h3::fields::contents;
use crate::h3::fields::split;
use crate::text;
use vstd::prelude::*;
use vstd::string::StringSliceAdditionalSpecFns;

verus! {

/// Why a fixture cannot be used. Lines count from one.
#[derive(Clone, Copy, Debug, PartialEq, Eq, Structural)]
pub enum FixtureError {
    /// A section occurs twice.
    DuplicateSection(usize),
    /// A field stands before every section.
    BeforeSection,
    /// A line is neither a section nor a field.
    Malformed(usize),
    /// A field is not well formed, or its name occurs twice in the section.
    Invalid(usize),
    /// A section has no fields, or too many.
    RequestSize,
    ResponseSize,
}

/// Whether some bytes are the UTF-8 form of one white space character.
pub open spec fn white(s: Seq<u8>) -> bool {
    ||| s.len() == 1 && (s[0] == 32 || 9 <= s[0] <= 13)
    ||| s.len() == 2 && s[0] == 0xc2 && (s[1] == 0x85 || s[1] == 0xa0)
    ||| s.len() == 3 && s[0] == 0xe1 && s[1] == 0x9a && s[2] == 0x80
    ||| s.len() == 3 && s[0] == 0xe2 && s[1] == 0x80 && (0x80 <= s[2] <= 0x8a || s[2] == 0xa8
        || s[2] == 0xa9 || s[2] == 0xaf)
    ||| s.len() == 3 && s[0] == 0xe2 && s[1] == 0x81 && s[2] == 0x9f
    ||| s.len() == 3 && s[0] == 0xe3 && s[1] == 0x80 && s[2] == 0x80
}

/// The length of the white space character at the front of some text; zero if there is none.
pub open spec fn white_front(s: Seq<u8>) -> nat {
    if s.len() >= 1 && white(s.take(1)) {
        1
    } else if s.len() >= 2 && white(s.take(2)) {
        2
    } else if s.len() >= 3 && white(s.take(3)) {
        3
    } else {
        0
    }
}

/// The length of the white space character at the end of some text; zero if there is none.
pub open spec fn white_back(s: Seq<u8>) -> nat {
    if s.len() >= 1 && white(s.skip(s.len() - 1)) {
        1
    } else if s.len() >= 2 && white(s.skip(s.len() - 2)) {
        2
    } else if s.len() >= 3 && white(s.skip(s.len() - 3)) {
        3
    } else {
        0
    }
}

/// Text without the white space at its front.
pub open spec fn strip_start(s: Seq<u8>) -> Seq<u8>
    decreases s.len(),
{
    if white_front(s) > 0 {
        strip_start(s.skip(white_front(s) as int))
    } else {
        s
    }
}

/// Text without the white space at its end.
pub open spec fn strip_end(s: Seq<u8>) -> Seq<u8>
    decreases s.len(),
{
    if white_back(s) > 0 {
        strip_end(s.take(s.len() - white_back(s)))
    } else {
        s
    }
}

/// Text without the white space around it.
pub open spec fn strip(s: Seq<u8>) -> Seq<u8> {
    strip_end(strip_start(s))
}

fn is_white(s: &[u8], i: usize, n: usize) -> (b: bool)
    requires
        i <= n <= s@.len(),
    ensures
        b == white(s@.subrange(i as int, n as int)),
{
    let size: usize = n - i;
    if size == 1 {
        s[i] == 32 || (9 <= s[i] && s[i] <= 13)
    } else if size == 2 {
        s[i] == 0xc2 && (s[i + 1] == 0x85 || s[i + 1] == 0xa0)
    } else if size == 3 {
        let (a, b, c): (u8, u8, u8) = (s[i], s[i + 1], s[i + 2]);
        (a == 0xe1 && b == 0x9a && c == 0x80) || (a == 0xe2 && b == 0x80 && ((0x80 <= c && c
            <= 0x8a) || c == 0xa8 || c == 0xa9 || c == 0xaf)) || (a == 0xe2 && b == 0x81 && c
            == 0x9f) || (a == 0xe3 && b == 0x80 && c == 0x80)
    } else {
        false
    }
}

fn front(s: &[u8], i: usize) -> (n: usize)
    requires
        i <= s@.len(),
    ensures
        n == white_front(s@.skip(i as int)),
        i + n <= s@.len(),
{
    let left: usize = s.len() - i;
    let ghost t = s@.skip(i as int);
    for k in 1..4usize
        invariant
            i + left == s@.len() <= usize::MAX,
            t == s@.skip(i as int),
            1 <= k,
            k > 1 ==> !(t.len() >= 1 && white(t.take(1))),
            k > 2 ==> !(t.len() >= 2 && white(t.take(2))),
            k > 3 ==> !(t.len() >= 3 && white(t.take(3))),
    {
        if k <= left {
            assert(s@.subrange(i as int, i + k) =~= t.take(k as int));
            if is_white(s, i, i + k) {
                return k;
            }
        }
    }
    0
}

fn back(s: &[u8], i: usize, n: usize) -> (k: usize)
    requires
        i <= n <= s@.len(),
    ensures
        k == white_back(s@.subrange(i as int, n as int)),
        i + k <= n,
{
    let left: usize = n - i;
    let ghost t = s@.subrange(i as int, n as int);
    for k in 1..4usize
        invariant
            i <= n <= s@.len(),
            left == n - i,
            t == s@.subrange(i as int, n as int),
            1 <= k,
            k > 1 ==> !(t.len() >= 1 && white(t.skip(t.len() - 1))),
            k > 2 ==> !(t.len() >= 2 && white(t.skip(t.len() - 2))),
            k > 3 ==> !(t.len() >= 3 && white(t.skip(t.len() - 3))),
    {
        if k <= left {
            assert(s@.subrange(n - k, n as int) =~= t.skip(t.len() - k));
            if is_white(s, n - k, n) {
                return k;
            }
        }
    }
    0
}

/// Removes the white space around some text.
fn stripped(s: &[u8]) -> (t: Vec<u8>)
    ensures
        t@ == strip(s@),
{
    let mut i: usize = 0;
    assert(s@.skip(0) =~= s@);
    let end: usize = s.len();
    let mut size: usize = front(s, i);
    while size > 0
        invariant
            i + size <= s@.len() == end,
            size == white_front(s@.skip(i as int)),
            strip_start(s@.skip(i as int)) == strip_start(s@),
        decreases s@.len() - i,
    {
        assert(s@.skip(i as int).skip(size as int) =~= s@.skip(i + size));
        i = i + size;
        size = front(s, i);
    }
    assert(strip_start(s@) == s@.skip(i as int));
    let mut n: usize = end;
    assert(s@.subrange(i as int, n as int) =~= s@.skip(i as int));
    size = back(s, i, n);
    while size > 0
        invariant
            i + size <= n <= s@.len(),
            size == white_back(s@.subrange(i as int, n as int)),
            strip_end(s@.subrange(i as int, n as int)) == strip(s@),
        decreases n,
    {
        let ghost t = s@.subrange(i as int, n as int);
        assert(t.take(t.len() - size) =~= s@.subrange(i as int, n - size));
        n = n - size;
        size = back(s, i, n);
    }
    vstd::slice::slice_to_vec(vstd::slice::slice_subrange(s, i, n))
}

/// Whether a name has only lower-case letters, digits and dashes.
pub open spec fn valid_name(s: Seq<u8>) -> bool {
    s.len() > 0 && forall|i: int|
        0 <= i < s.len() ==> (97 <= #[trigger] s[i] <= 122 || 48 <= s[i] <= 57 || s[i] == 45)
}

/// Whether a value is printable ASCII, which is escaped alike in Rust and C.
pub open spec fn valid_value(s: Seq<u8>) -> bool {
    forall|i: int| 0 <= i < s.len() ==> 32 <= #[trigger] s[i] <= 126
}

fn is_name(s: &[u8]) -> (b: bool)
    ensures
        b == valid_name(s@),
{
    if s.len() == 0 {
        return false;
    }
    for i in 0..s.len()
        invariant
            s@.len() > 0,
            forall|k: int|
                0 <= k < i ==> (97 <= #[trigger] s@[k] <= 122 || 48 <= s@[k] <= 57 || s@[k] == 45),
    {
        let b: u8 = s[i];
        if !((97 <= b && b <= 122) || (48 <= b && b <= 57) || b == 45) {
            assert(s@[i as int] == b);
            return false;
        }
    }
    true
}

fn is_value(s: &[u8]) -> (b: bool)
    ensures
        b == valid_value(s@),
{
    for i in 0..s.len()
        invariant
            forall|k: int| 0 <= k < i ==> 32 <= #[trigger] s@[k] <= 126,
    {
        let b: u8 = s[i];
        if b < 32 || b > 126 {
            assert(s@[i as int] == b);
            return false;
        }
    }
    true
}

/// A field: its name and its value.
pub type FieldView = (Seq<u8>, Seq<u8>);

/// Whether a name occurs among some fields.
pub open spec fn named(fields: Seq<FieldView>, name: Seq<u8>) -> bool {
    exists|i: int| 0 <= i < fields.len() && (#[trigger] fields[i]).0 == name
}

/// The place of the first colon.
pub open spec fn colon(s: Seq<u8>) -> Option<int>
    decreases s.len(),
{
    if s.len() == 0 {
        None
    } else {
        match colon(s.drop_last()) {
            Some(i) => Some(i),
            None => if s.last() == 58 {
                Some(s.len() - 1)
            } else {
                None
            },
        }
    }
}

fn find_colon(s: &[u8]) -> (r: Option<usize>)
    ensures
        match colon(s@) {
            Some(i) => r == Some(i as usize) && 0 <= i < s@.len(),
            None => r is None,
        },
{
    assert(s@.take(0) =~= Seq::empty());
    for i in 0..s.len()
        invariant
            colon(s@.take(i as int)) is None,
    {
        assert(s@.take(i + 1).drop_last() =~= s@.take(i as int));
        if s[i] == 58 {
            proof {
                lemma_colon_stays(s@, i + 1);
            }
            return Some(i);
        }
    }
    assert(s@.take(s@.len() as int) =~= s@);
    None
}

proof fn lemma_colon_stays(s: Seq<u8>, i: int)
    requires
        0 <= i <= s.len(),
    ensures
        colon(s.take(i)) is Some ==> colon(s) == colon(s.take(i)),
    decreases s.len(),
{
    if i == s.len() {
        assert(s.take(i) =~= s);
    } else {
        lemma_colon_stays(s.drop_last(), i);
        assert(s.drop_last().take(i) =~= s.take(i));
    }
}

/// What was read of a fixture.
#[verifier::ext_equal]
pub struct FixtureView {
    /// The section that fields belong to now; whether it is that of the response.
    pub section: Option<bool>,
    pub seen_request: bool,
    pub seen_response: bool,
    pub request: Seq<FieldView>,
    pub response: Seq<FieldView>,
}

impl FixtureView {
    /// Nothing was read.
    pub open spec fn fresh() -> FixtureView {
        FixtureView {
            section: None,
            seen_request: false,
            seen_response: false,
            request: Seq::empty(),
            response: Seq::empty(),
        }
    }

    /// The fields of the current section.
    pub open spec fn current(self) -> Seq<FieldView> {
        if self.section == Some(true) {
            self.response
        } else {
            self.request
        }
    }

    /// Reads one line. Empty lines and comments mean nothing.
    pub open spec fn line(self, line: Seq<u8>, number: usize) -> Result<
        FixtureView,
        FixtureError,
    > {
        let t = strip(line);
        if t.len() == 0 || t[0] == 35 {
            Ok(self)
        } else if t == "[request]".spec_bytes() {
            if self.seen_request {
                Err(FixtureError::DuplicateSection(number))
            } else {
                Ok(FixtureView { section: Some(false), seen_request: true, ..self })
            }
        } else if t == "[response]".spec_bytes() {
            if self.seen_response {
                Err(FixtureError::DuplicateSection(number))
            } else {
                Ok(FixtureView { section: Some(true), seen_response: true, ..self })
            }
        } else if self.section is None {
            Err(FixtureError::BeforeSection)
        } else {
            match colon(t) {
                None => Err(FixtureError::Malformed(number)),
                Some(i) => {
                    let name = t.take(i);
                    let value = strip(t.skip(i + 1));
                    if !valid_name(name) || !valid_value(value) || named(self.current(), name) {
                        Err(FixtureError::Invalid(number))
                    } else if self.section == Some(true) {
                        Ok(FixtureView { response: self.response.push((name, value)), ..self })
                    } else {
                        Ok(FixtureView { request: self.request.push((name, value)), ..self })
                    }
                },
            }
        }
    }
}

/// Reads lines one after another, up to the first fault.
pub open spec fn read_lines(lines: Seq<Seq<u8>>) -> Result<FixtureView, FixtureError>
    decreases lines.len(),
{
    if lines.len() == 0 {
        Ok(FixtureView::fresh())
    } else {
        match read_lines(lines.drop_last()) {
            Err(error) => Err(error),
            Ok(fixture) => fixture.line(lines.last(), lines.len() as usize),
        }
    }
}

/// Reads a fixture: each section must have at least one field and at most 63.
pub open spec fn read_fixture(source: Seq<u8>) -> Result<
    (Seq<FieldView>, Seq<FieldView>),
    FixtureError,
> {
    match read_lines(split(source, 10)) {
        Err(error) => Err(error),
        Ok(fixture) => if fixture.request.len() == 0 || fixture.request.len() >= 64 {
            Err(FixtureError::RequestSize)
        } else if fixture.response.len() == 0 || fixture.response.len() >= 64 {
            Err(FixtureError::ResponseSize)
        } else {
            Ok((fixture.request, fixture.response))
        },
    }
}

proof fn lemma_fault_stays(lines: Seq<Seq<u8>>, i: int)
    requires
        0 <= i <= lines.len(),
    ensures
        read_lines(lines.take(i)) is Err ==> read_lines(lines) == read_lines(lines.take(i)),
    decreases lines.len(),
{
    if i == lines.len() {
        assert(lines.take(i) =~= lines);
    } else {
        lemma_fault_stays(lines.drop_last(), i);
        assert(lines.drop_last().take(i) =~= lines.take(i));
    }
}

/// A field: its name and its value.
pub struct Field {
    pub name: Vec<u8>,
    pub value: Vec<u8>,
}

/// The fields as they were read.
pub open spec fn views(fields: Seq<Field>) -> Seq<FieldView> {
    fields.map_values(|f: Field| (f.name@, f.value@))
}

/// The fields of both sections.
pub struct Fixture {
    pub request: Vec<Field>,
    pub response: Vec<Field>,
}

struct Reading {
    section: Option<bool>,
    seen_request: bool,
    seen_response: bool,
    request: Vec<Field>,
    response: Vec<Field>,
}

impl Reading {
    spec fn view(self) -> FixtureView {
        FixtureView {
            section: self.section,
            seen_request: self.seen_request,
            seen_response: self.seen_response,
            request: views(self.request@),
            response: views(self.response@),
        }
    }

    fn line(&mut self, line: &[u8], number: usize) -> (r: Result<(), FixtureError>)
        ensures
            match old(self).view().line(line@, number) {
                Ok(fixture) => r is Ok && final(self).view() == fixture,
                Err(error) => r == Err::<(), FixtureError>(error),
            },
    {
        let t = stripped(line);
        if t.len() == 0 || t[0] == 35 {
            return Ok(());
        }
        if text::same(t.as_slice(), "[request]".as_bytes()) {
            if self.seen_request {
                return Err(FixtureError::DuplicateSection(number));
            }
            self.seen_request = true;
            self.section = Some(false);
            return Ok(());
        }
        if text::same(t.as_slice(), "[response]".as_bytes()) {
            if self.seen_response {
                return Err(FixtureError::DuplicateSection(number));
            }
            self.seen_response = true;
            self.section = Some(true);
            return Ok(());
        }
        let response = match self.section {
            None => {
                return Err(FixtureError::BeforeSection);
            },
            Some(response) => response,
        };
        let i: usize = match find_colon(t.as_slice()) {
            None => {
                return Err(FixtureError::Malformed(number));
            },
            Some(i) => i,
        };
        let name = vstd::slice::slice_to_vec(vstd::slice::slice_subrange(t.as_slice(), 0, i));
        let value = stripped(vstd::slice::slice_subrange(t.as_slice(), i + 1, t.len()));
        assert(name@ =~= t@.take(i as int));
        assert(t@.subrange(i + 1, t@.len() as int) =~= t@.skip(i + 1));
        let taken = if response {
            is_named(&self.response, name.as_slice())
        } else {
            is_named(&self.request, name.as_slice())
        };
        if !is_name(name.as_slice()) || !is_value(value.as_slice()) || taken {
            return Err(FixtureError::Invalid(number));
        }
        let ghost field = (name@, value@);
        let ghost before = self.view();
        if response {
            self.response.push(Field { name, value });
            assert(views(self.response@) =~= before.response.push(field));
        } else {
            self.request.push(Field { name, value });
            assert(views(self.request@) =~= before.request.push(field));
        }
        Ok(())
    }
}

fn is_named(fields: &Vec<Field>, name: &[u8]) -> (b: bool)
    ensures
        b == named(views(fields@), name@),
{
    for i in 0..fields.len()
        invariant
            forall|k: int| 0 <= k < i ==> (#[trigger] views(fields@)[k]).0 != name@,
    {
        assert(views(fields@)[i as int].0 == fields@[i as int].name@);
        if text::same(fields[i].name.as_slice(), name) {
            return true;
        }
    }
    false
}

/// Reads a fixture.
pub fn parse(source: &str) -> (r: Result<Fixture, FixtureError>)
    ensures
        match read_fixture(source.spec_bytes()) {
            Ok((request, response)) => r matches Ok(fixture) && views(fixture.request@) == request
                && views(fixture.response@) == response,
            Err(error) => r matches Err(e) && e == error,
        },
{
    let lines = fields::cut(source.as_bytes(), 10);
    let ghost all = split(source.spec_bytes(), 10);
    assert(contents(lines@).len() == lines@.len());
    let mut reading = Reading {
        section: None,
        seen_request: false,
        seen_response: false,
        request: Vec::new(),
        response: Vec::new(),
    };
    assert(reading.view() =~= FixtureView::fresh());
    assert(all.take(0) =~= Seq::empty());
    for i in 0..lines.len()
        invariant
            contents(lines@) == all,
            all.len() == lines@.len(),
            all == split(source.spec_bytes(), 10),
            read_lines(all.take(i as int)) == Ok::<FixtureView, FixtureError>(reading.view()),
    {
        assert(all.take(i + 1).drop_last() =~= all.take(i as int));
        assert(all.take(i + 1).last() == lines@[i as int]@);
        proof {
            lemma_fault_stays(all, i + 1);
        }
        if let Err(error) = reading.line(lines[i].as_slice(), i + 1) {
            return Err(error);
        }
    }
    assert(all.take(all.len() as int) =~= all);
    assert(views(reading.request@).len() == reading.request@.len());
    assert(views(reading.response@).len() == reading.response@.len());
    if reading.request.len() == 0 || reading.request.len() >= 64 {
        return Err(FixtureError::RequestSize);
    }
    if reading.response.len() == 0 || reading.response.len() >= 64 {
        return Err(FixtureError::ResponseSize);
    }
    Ok(Fixture { request: reading.request, response: reading.response })
}

} // verus!
