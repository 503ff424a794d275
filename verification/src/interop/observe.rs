//! Local wire observation and independent QPACK encoder-stream backpressure.

use crate::buffer;
use crate::buffer::bytes_of;
use crate::varint::integer;
use crate::varint::prefix_integer;
use crate::varint::varint;
use crate::varint::varint_decode;
use bytes::Bytes;
use std::collections::BTreeMap;
use vstd::prelude::*;
use vstd::std_specs::btree::axiom_increasing_seq_meaning;
use vstd::std_specs::btree::spec_btree_map_iter;
use vstd::std_specs::cmp::OrdSpec;
use vstd::std_specs::iter::IteratorSpec;

verus! {

broadcast use vstd::std_specs::btree::group_btree_axioms;

/// Bytes that are kept of a request or response stream.
pub const PREFIX: usize = 32;

/// Bytes that are kept of a stream that the client opened for itself.
pub const CAPTURE: usize = 65536;

/// Bytes after which the headers of a held request stop.
pub const PARTIAL: usize = 8;

/// The Required Insert Count, as encoded, of the header section with which a request or
/// response stream begins.
pub open spec fn insert_count(id: u64, bytes: Seq<u8>) -> Option<nat> {
    if id % 4 != 0 {
        None
    } else {
        match varint_decode(bytes) {
            Some((kind, n)) => if kind != 1 {
                None
            } else {
                match varint_decode(bytes.skip(n as int)) {
                    Some((_, m)) => prefix_integer(bytes.skip(n as int).skip(m as int), 8).0,
                    None => None,
                }
            },
            None => None,
        }
    }
}

fn read_insert_count(id: u64, bytes: &[u8]) -> (count: Option<u64>)
    ensures
        match insert_count(id, bytes@) {
            Some(n) => n <= u64::MAX && count == Some(n as u64),
            None => count is None,
        },
{
    if id % 4 != 0 {
        return None;
    }
    let mut data: &[u8] = bytes;
    match varint(&mut data) {
        Some(1) => {},
        _ => {
            return None;
        },
    }
    if varint(&mut data).is_none() {
        return None;
    }
    integer(&mut data, 8)
}

/// Whether the instructions of a QPACK decoder stream cancel the stream `id`.
pub open spec fn cancels(rest: Seq<u8>, id: u64) -> bool
    decreases rest.len(),
{
    if rest.len() == 0 {
        false
    } else {
        let bits = if rest[0] >= 128 {
            7nat
        } else {
            6nat
        };
        let (value, n) = prefix_integer(rest, bits);
        if value is None || n == 0 || n > rest.len() {
            false
        } else {
            (64 <= rest[0] < 128 && value == Some(id as nat)) || cancels(rest.skip(n as int), id)
        }
    }
}

/// Whether a stream is a QPACK decoder stream that cancels the stream `id`.
pub open spec fn cancel_stream(bytes: Seq<u8>, id: u64) -> bool {
    match varint_decode(bytes) {
        Some((kind, n)) => kind == 3 && cancels(bytes.skip(n as int), id),
        None => false,
    }
}

proof fn lemma_continuation_length(s: Seq<u8>, sum: nat, scale: nat, left: nat)
    ensures
        crate::varint::continuation(s, sum, scale, left).1 <= s.len(),
    decreases left,
{
    if left > 0 && s.len() > 0 && s[0] >= 128 {
        let next = sum + (s[0] % 128) as nat * scale;
        lemma_continuation_length(s.skip(1), next, scale * 128, (left - 1) as nat);
    }
}

proof fn lemma_integer_length(s: Seq<u8>, bits: nat)
    ensures
        prefix_integer(s, bits).1 <= s.len(),
        s.len() > 0 ==> prefix_integer(s, bits).1 > 0,
{
    if s.len() > 0 {
        let low = s[0] as nat % vstd::arithmetic::power2::pow2(bits);
        lemma_continuation_length(s.skip(1), low, 1, 9);
    }
}

fn is_cancel_stream(bytes: &[u8], id: u64) -> (b: bool)
    ensures
        b == cancel_stream(bytes@, id),
{
    let mut data: &[u8] = bytes;
    match varint(&mut data) {
        Some(3) => {},
        _ => {
            return false;
        },
    }
    let ghost start = data@;
    while data.len() > 0
        invariant
            cancels(start, id) == cancels(data@, id),
            cancel_stream(bytes@, id) == cancels(start, id),
        decreases data@.len(),
    {
        let first: u8 = data[0];
        let bits: u8 = if first >= 128 {
            7
        } else {
            6
        };
        let ghost rest = data@;
        proof {
            lemma_integer_length(rest, bits as nat);
        }
        match integer(&mut data, bits) {
            None => {
                return false;
            },
            Some(value) => {
                if 64 <= first && first < 128 && value == id {
                    return true;
                }
            },
        }
    }
    false
}

/// What was observed, and what is held back.
#[verifier::ext_equal]
pub struct StateView {
    /// The first bytes of each stream that was read.
    pub rx: Map<u64, Seq<u8>>,
    /// The first bytes of each stream that was written.
    pub tx: Map<u64, Seq<u8>>,
    /// Whether the peer's encoder stream is held back.
    pub paused: bool,
    /// Whether streams are observed.
    pub capturing: bool,
    /// The request whose headers are held back after a few bytes.
    pub pause_request: u64,
    /// Whether data of the encoder stream has been held back.
    pub encoder_held: bool,
}

/// The streams of a map as they were captured.
pub open spec fn captures(m: Map<u64, Vec<u8>>) -> Map<u64, Seq<u8>> {
    m.map_values(|v: Vec<u8>| v@)
}

/// The bytes captured of a stream; none if it is not there.
pub open spec fn captured(m: Map<u64, Seq<u8>>, id: u64) -> Seq<u8> {
    if m.contains_key(id) {
        m[id]
    } else {
        Seq::empty()
    }
}

/// Whether a list holds exactly the streams with a header section and their insert counts,
/// in the order of their IDs.
pub open spec fn lists_counts(m: Map<u64, Seq<u8>>, list: Seq<(u64, u64)>) -> bool {
    &&& forall|i: int, j: int| 0 <= i < j < list.len() ==> list[i].0 < list[j].0
    &&& forall|i: int|
        0 <= i < list.len() ==> m.contains_key((#[trigger] list[i]).0) && insert_count(
            list[i].0,
            m[list[i].0],
        ) == Some(list[i].1 as nat)
    &&& forall|id: u64| #[trigger]
        m.contains_key(id) && insert_count(id, m[id]) is Some ==> exists|i: int|
            0 <= i < list.len() && (#[trigger] list[i]).0 == id
}

/// Whether a stream has a header section with references into the dynamic table.
pub open spec fn is_dynamic(m: Map<u64, Seq<u8>>, id: u64) -> bool {
    m.contains_key(id) && insert_count(id, m[id]) is Some && insert_count(id, m[id]) != Some(0nat)
}

/// What is observed of a connection.
pub struct State {
    rx: BTreeMap<u64, Vec<u8>>,
    tx: BTreeMap<u64, Vec<u8>>,
    paused: bool,
    capturing: bool,
    pause_request: u64,
    encoder_held: bool,
}

impl View for State {
    type V = StateView;

    closed spec fn view(&self) -> StateView {
        StateView {
            rx: captures(self.rx@),
            tx: captures(self.tx@),
            paused: self.paused,
            capturing: self.capturing,
            pause_request: self.pause_request,
            encoder_held: self.encoder_held,
        }
    }
}

/// The streams of a map, in the order of their IDs.
fn streams(m: &BTreeMap<u64, Vec<u8>>) -> (ids: Vec<u64>)
    ensures
        forall|i: int, j: int| 0 <= i < j < ids@.len() ==> ids@[i] < ids@[j],
        forall|id: u64| #[trigger] ids@.contains(id) <==> m@.contains_key(id),
{
    let entries = m.iter();
    let ghost order = entries.remaining().map_values(|kv: (&u64, &Vec<u8>)| *kv.0);
    let mut ids: Vec<u64> = Vec::new();
    for entry in it: entries
        invariant
            order == it.seq().map_values(|kv: (&u64, &Vec<u8>)| *kv.0),
            ids@ == order.take(it.index()),
    {
        ids.push(*entry.0);
        assert(ids@ =~= order.take(it.index() + 1));
    }
    proof {
        assert(ids@ =~= order);
        broadcast use vstd::laws_cmp::group_laws_cmp;

        axiom_increasing_seq_meaning(order);
        assert forall|i: int, j: int| 0 <= i < j < ids@.len() implies ids@[i] < ids@[j] by {
            assert(order[i].cmp_spec(&order[j]) is Less);
        }
        assert forall|id: u64| #[trigger] ids@.contains(id) <==> m@.contains_key(id) by {
            let v = spec_btree_map_iter(m).remaining();
            if ids@.contains(id) {
                let i = choose|i: int| 0 <= i < ids@.len() && ids@[i] == id;
                assert(m@.contains_key(*v[i].0));
            }
            if m@.contains_key(id) {
                assert(v.contains((&id, &m@[id])));
                let i = choose|i: int| 0 <= i < v.len() && v[i] == (&id, &m@[id]);
                assert(ids@[i] == id);
            }
        }
    }
    ids
}

/// Reads the insert counts of the streams of a map, in the order of their IDs.
fn counts(m: &BTreeMap<u64, Vec<u8>>) -> (list: Vec<(u64, u64)>)
    ensures
        lists_counts(captures(m@), list@),
{
    let ids = streams(m);
    let ghost all = captures(m@);
    let mut list: Vec<(u64, u64)> = Vec::new();
    for i in 0..ids.len()
        invariant
            all == captures(m@),
            forall|a: int, b: int| 0 <= a < b < ids@.len() ==> ids@[a] < ids@[b],
            forall|id: u64| #[trigger] ids@.contains(id) <==> m@.contains_key(id),
            forall|a: int, b: int| 0 <= a < b < list@.len() ==> list@[a].0 < list@[b].0,
            forall|a: int|
                0 <= a < list@.len() ==> all.contains_key((#[trigger] list@[a]).0)
                    && insert_count(list@[a].0, all[list@[a].0]) == Some(list@[a].1 as nat),
            forall|a: int| 0 <= a < list@.len() && i < ids@.len() ==> (#[trigger] list@[a]).0
                < ids@[i as int],
            forall|k: int|
                0 <= k < i && insert_count(ids@[k], all[ids@[k]]) is Some ==> exists|a: int|
                    0 <= a < list@.len() && (#[trigger] list@[a]).0 == #[trigger] ids@[k],
    {
        let id: u64 = ids[i];
        let ghost before = list@;
        assert(ids@.contains(id));
        if let Some(bytes) = m.get(&id) {
            assert(all[id] == bytes@);
            if let Some(count) = read_insert_count(id, bytes.as_slice()) {
                list.push((id, count));
                assert(list@[before.len() as int].0 == id);
            }
        }
        proof {
            assert forall|k: int|
                0 <= k <= i && insert_count(ids@[k], all[ids@[k]]) is Some implies exists|a: int|
                0 <= a < list@.len() && (#[trigger] list@[a]).0 == #[trigger] ids@[k] by {
                if k < i {
                    let a = choose|a: int|
                        0 <= a < before.len() && (#[trigger] before[a]).0 == ids@[k];
                    assert(list@[a].0 == ids@[k]);
                }
            }
        }
    }
    proof {
        assert forall|id: u64| #[trigger]
            all.contains_key(id) && insert_count(id, all[id]) is Some implies exists|a: int|
            0 <= a < list@.len() && (#[trigger] list@[a]).0 == id by {
            assert(ids@.contains(id));
            let k = choose|k: int| 0 <= k < ids@.len() && ids@[k] == id;
            assert(insert_count(ids@[k], all[ids@[k]]) is Some);
        }
    }
    list
}

impl State {
    /// Observes from the start; `paused` holds the peer's encoder stream back.
    pub fn new(paused: bool) -> (s: State)
        ensures
            s@ == (StateView {
                rx: Map::empty(),
                tx: Map::empty(),
                paused,
                capturing: true,
                pause_request: u64::MAX,
                encoder_held: false,
            }),
    {
        let s = State {
            rx: BTreeMap::new(),
            tx: BTreeMap::new(),
            paused,
            capturing: true,
            pause_request: u64::MAX,
            encoder_held: false,
        };
        assert(s@.rx =~= Map::empty());
        assert(s@.tx =~= Map::empty());
        s
    }

    /// The insert counts of the requests that were sent.
    pub fn request_insert_counts(&self) -> (list: Vec<(u64, u64)>)
        ensures
            lists_counts(self@.tx, list@),
    {
        counts(&self.tx)
    }

    /// The insert counts of the responses that were received.
    pub fn response_insert_counts(&self) -> (list: Vec<(u64, u64)>)
        ensures
            lists_counts(self@.rx, list@),
    {
        counts(&self.rx)
    }

    /// Holds the headers of a request back after a few bytes.
    pub fn pause_request_headers(&mut self, id: u64)
        ensures
            final(self)@ == (StateView { pause_request: id, ..old(self)@ }),
    {
        self.pause_request = id;
    }

    /// Holds the peer's encoder stream back from now on.
    pub fn pause_encoder(&mut self)
        ensures
            final(self)@ == (StateView { paused: true, encoder_held: false, ..old(self)@ }),
    {
        self.encoder_held = false;
        self.paused = true;
    }

    /// Whether data of the peer's encoder stream has been held back.
    pub fn encoder_is_held(&self) -> (b: bool)
        ensures
            b == self@.encoder_held,
    {
        self.encoder_held
    }

    /// Lets the peer's encoder stream go on.
    pub fn resume(&mut self)
        ensures
            final(self)@ == (StateView { paused: false, ..old(self)@ }),
    {
        self.paused = false;
    }

    /// Whether the peer's encoder stream is to be held back.
    pub fn is_paused(&self) -> (b: bool)
        ensures
            b == self@.paused,
    {
        self.paused
    }

    /// Ends the observation and forgets what was observed. Nothing may be held back.
    pub fn stop_capture(&mut self)
        requires
            !old(self)@.paused,
        ensures
            final(self)@ == (StateView {
                rx: Map::empty(),
                tx: Map::empty(),
                capturing: false,
                ..old(self)@
            }),
    {
        self.capturing = false;
        self.rx.clear();
        self.tx.clear();
        assert(self@.rx =~= Map::empty());
        assert(self@.tx =~= Map::empty());
    }

    /// Whether exactly the first bytes of a request's headers were sent.
    pub fn request_headers_partial(&self, id: u64) -> (b: bool)
        ensures
            b == (self@.tx.contains_key(id) && self@.tx[id].len() == PARTIAL),
    {
        match self.tx.get(&id) {
            Some(bytes) => {
                assert(self@.tx[id] == bytes@);
                bytes.len() == PARTIAL
            },
            None => false,
        }
    }

    /// The first response whose headers refer to the dynamic table.
    pub fn dynamic(&self) -> (r: Option<u64>)
        ensures
            match r {
                Some(id) => is_dynamic(self@.rx, id) && forall|k: u64|
                    k < id ==> !is_dynamic(self@.rx, k),
                None => forall|k: u64| !is_dynamic(self@.rx, k),
            },
    {
        first_dynamic(&self.rx)
    }

    /// Whether the headers of a request refer to the dynamic table.
    pub fn request_dynamic(&self) -> (b: bool)
        ensures
            b == exists|id: u64| is_dynamic(self@.tx, id),
    {
        match first_dynamic(&self.tx) {
            Some(id) => {
                assert(is_dynamic(self@.tx, id));
                true
            },
            None => false,
        }
    }

    /// Whether a decoder stream has canceled the stream `id`.
    pub fn has_cancel(&self, id: u64) -> (b: bool)
        ensures
            b == exists|k: u64|
                #![trigger self@.tx.contains_key(k)]
                self@.tx.contains_key(k) && cancel_stream(self@.tx[k], id),
    {
        let ids = streams(&self.tx);
        let ghost all = self@.tx;
        for i in 0..ids.len()
            invariant
                all == captures(self.tx@),
                all == self@.tx,
                forall|k: u64| #[trigger] ids@.contains(k) <==> self.tx@.contains_key(k),
                forall|a: int| 0 <= a < i ==> !cancel_stream(all[#[trigger] ids@[a]], id),
        {
            let k: u64 = ids[i];
            assert(ids@.contains(k));
            if let Some(bytes) = self.tx.get(&k) {
                assert(all[k] == bytes@);
                if is_cancel_stream(bytes.as_slice(), id) {
                    assert(all.contains_key(k));
                    return true;
                }
            }
        }
        assert forall|k: u64| all.contains_key(k) implies !cancel_stream(all[k], id) by {
            assert(ids@.contains(k));
            let a = choose|a: int| 0 <= a < ids@.len() && ids@[a] == k;
            assert(!cancel_stream(all[ids@[a]], id));
        }
        false
    }
}

/// The first stream of a map whose headers refer to the dynamic table.
fn first_dynamic(m: &BTreeMap<u64, Vec<u8>>) -> (r: Option<u64>)
    ensures
        match r {
            Some(id) => is_dynamic(captures(m@), id) && forall|k: u64|
                k < id ==> !is_dynamic(captures(m@), k),
            None => forall|k: u64| !is_dynamic(captures(m@), k),
        },
{
    let list = counts(m);
    let ghost all = captures(m@);
    for i in 0..list.len()
        invariant
            lists_counts(all, list@),
            all == captures(m@),
            forall|a: int| 0 <= a < i ==> (#[trigger] list@[a]).1 == 0,
    {
        let (id, count): (u64, u64) = list[i];
        if count != 0 {
            assert(insert_count(list@[i as int].0, all[list@[i as int].0]) == Some(count as nat));
            assert forall|k: u64| k < id implies !is_dynamic(all, k) by {
                if all.contains_key(k) && insert_count(k, all[k]) is Some {
                    let a = choose|a: int| 0 <= a < list@.len() && (#[trigger] list@[a]).0 == k;
                    assert(a < i) by {
                        if a > i {
                            assert(list@[i as int].0 < list@[a].0);
                        }
                    }
                    assert(list@[a].1 == 0);
                }
            }
            return Some(id);
        }
    }
    assert forall|k: u64| !is_dynamic(all, k) by {
        if all.contains_key(k) && insert_count(k, all[k]) is Some {
            let a = choose|a: int| 0 <= a < list@.len() && (#[trigger] list@[a]).0 == k;
            assert(list@[a].1 == 0);
        }
    }
    None
}

/// How much of a write is let through.
#[derive(Clone, Copy, Debug, PartialEq, Eq, Structural)]
pub enum SendLimit {
    /// All of it, unobserved.
    Through,
    /// At most so many bytes, observed.
    Write(usize),
    /// Nothing: the request stays blocked until its owner cancels it.
    Block,
}

/// The bytes that are captured of a write of `n` bytes.
pub open spec fn capture(id: u64, before: Seq<u8>, written: Seq<u8>) -> Seq<u8> {
    if id % 4 == 2 {
        before + written
    } else if before.len() < PREFIX {
        let room = PREFIX - before.len();
        if written.len() <= room {
            before + written
        } else {
            before + written.take(room)
        }
    } else {
        before
    }
}

impl State {
    fn captured(&self, id: u64) -> (n: usize)
        ensures
            n == captured(self@.tx, id).len(),
    {
        match self.tx.get(&id) {
            Some(bytes) => {
                assert(self@.tx[id] == bytes@);
                bytes.len()
            },
            None => 0,
        }
    }

    /// Whether a write on the stream `id` can be decided on: a request that is paused has not
    /// sent more than its first bytes.
    pub fn may_send(&self, id: u64) -> (b: bool)
        ensures
            b == (id == self@.pause_request ==> captured(self@.tx, id).len() <= PARTIAL),
    {
        id != self.pause_request || self.captured(id) <= PARTIAL
    }

    /// Whether `n` more bytes of the stream `id` can be captured.
    pub fn has_room(&self, id: u64, n: usize) -> (b: bool)
        ensures
            b == (id % 4 == 2 ==> captured(self@.tx, id).len() + n <= CAPTURE),
    {
        if id % 4 != 2 {
            return true;
        }
        let used: usize = self.captured(id);
        used <= CAPTURE && n <= CAPTURE - used
    }

    /// Decides how much of a write of `available` bytes on the stream `id` is let through.
    pub fn poll_send(&self, id: u64, available: usize) -> (limit: SendLimit)
        requires
            id == self@.pause_request ==> captured(self@.tx, id).len() <= PARTIAL,
        ensures
            limit == if !self@.capturing {
                SendLimit::Through
            } else if id != self@.pause_request {
                SendLimit::Write(available)
            } else {
                let room = PARTIAL - captured(self@.tx, id).len();
                if room == 0 {
                    SendLimit::Block
                } else if available < room {
                    SendLimit::Write(available)
                } else {
                    SendLimit::Write(room as usize)
                }
            },
    {
        if !self.capturing {
            return SendLimit::Through;
        }
        if id != self.pause_request {
            return SendLimit::Write(available);
        }
        let sent: usize = self.captured(id);
        if sent == PARTIAL {
            return SendLimit::Block;
        }
        if available < PARTIAL - sent {
            SendLimit::Write(available)
        } else {
            SendLimit::Write(PARTIAL - sent)
        }
    }

    /// Captures `n` bytes of `bytes` that were written to the stream `id`.
    pub fn sent(&mut self, id: u64, bytes: &[u8], n: usize)
        requires
            n <= bytes@.len(),
            id % 4 == 2 ==> captured(old(self)@.tx, id).len() + n <= CAPTURE,
        ensures
            final(self)@ == (StateView {
                tx: old(self)@.tx.insert(
                    id,
                    capture(id, captured(old(self)@.tx, id), bytes@.take(n as int)),
                ),
                ..old(self)@
            }),
    {
        let ghost before = self@;
        let mut entry: Vec<u8> = match self.tx.remove(&id) {
            Some(entry) => entry,
            None => Vec::new(),
        };
        assert(entry@ =~= captured(before.tx, id));
        let written: &[u8] = vstd::slice::slice_subrange(bytes, 0, n);
        assert(written@ =~= bytes@.take(n as int));
        if id % 4 == 2 {
            entry.extend_from_slice(written);
        } else if entry.len() < PREFIX {
            let room: usize = PREFIX - entry.len();
            let size: usize = if n < room {
                n
            } else {
                room
            };
            let kept: &[u8] = vstd::slice::slice_subrange(written, 0, size);
            assert(n <= room ==> kept@ =~= written@);
            assert(n > room ==> kept@ =~= written@.take(room as int));
            entry.extend_from_slice(kept);
        }
        let ghost kept = entry@;
        assert(kept =~= capture(id, captured(before.tx, id), bytes@.take(n as int)));
        self.tx.insert(id, entry);
        assert(self@.tx =~= before.tx.insert(id, kept));
    }
}

/// What to do next with a stream that is read.
pub enum ReadStep {
    /// Hand the bytes on.
    Deliver(Bytes),
    /// Wait until the encoder stream may go on.
    Hold,
    /// Read from the transport, unobserved.
    Through,
    /// Read from the transport, and come back with what it gave.
    Read,
}

/// What to do next with a stream that is read.
pub enum ReadStepView {
    Deliver(Seq<u8>),
    Hold,
    Through,
    Read,
}

impl View for ReadStep {
    type V = ReadStepView;

    open spec fn view(&self) -> ReadStepView {
        match *self {
            ReadStep::Deliver(bytes) => ReadStepView::Deliver(bytes_of(bytes)),
            ReadStep::Hold => ReadStepView::Hold,
            ReadStep::Through => ReadStepView::Through,
            ReadStep::Read => ReadStepView::Read,
        }
    }
}

/// A stream that is read: its first bytes, and the bytes that are held back.
#[verifier::ext_equal]
pub struct ReaderView {
    pub prefix: Seq<u8>,
    pub held: Option<Seq<u8>>,
}

/// A stream's first bytes after more of them arrived.
pub open spec fn longer_prefix(prefix: Seq<u8>, bytes: Seq<u8>) -> Seq<u8> {
    if prefix.len() >= PREFIX {
        prefix
    } else {
        let room = PREFIX - prefix.len();
        if bytes.len() <= room {
            prefix + bytes
        } else {
            prefix + bytes.take(room)
        }
    }
}

/// Whether a stream that begins like this is the peer's QPACK encoder stream.
pub open spec fn encoder_stream(id: u64, prefix: Seq<u8>) -> bool {
    id % 4 == 3 && (varint_decode(prefix) matches Some((kind, _)) && kind == 2)
}

impl ReaderView {
    /// Begins a poll: what was held back comes first.
    pub open spec fn poll(self, state: StateView) -> (ReaderView, StateView, ReadStepView) {
        match self.held {
            Some(bytes) => if state.paused {
                (self, StateView { encoder_held: true, ..state }, ReadStepView::Hold)
            } else {
                (ReaderView { held: None, ..self }, state, ReadStepView::Deliver(bytes))
            },
            None => if state.capturing {
                (self, state, ReadStepView::Read)
            } else {
                (self, state, ReadStepView::Through)
            },
        }
    }

    /// Takes bytes that the transport gave: the encoder stream is held back while it is
    /// paused.
    pub open spec fn read(self, state: StateView, id: u64, bytes: Seq<u8>) -> (
        ReaderView,
        StateView,
        ReadStepView,
    ) {
        let prefix = longer_prefix(self.prefix, bytes);
        let seen = if self.prefix.len() < PREFIX {
            StateView { rx: state.rx.insert(id, prefix), ..state }
        } else {
            state
        };
        if encoder_stream(id, prefix) && state.paused {
            (
                ReaderView { prefix, held: Some(bytes) },
                StateView { encoder_held: true, ..seen },
                ReadStepView::Hold,
            )
        } else {
            (ReaderView { prefix, ..self }, seen, ReadStepView::Deliver(bytes))
        }
    }
}

/// A stream that is read.
pub struct Reader {
    prefix: Vec<u8>,
    held: Option<Bytes>,
}

impl View for Reader {
    type V = ReaderView;

    closed spec fn view(&self) -> ReaderView {
        ReaderView {
            prefix: self.prefix@,
            held: match self.held {
                Some(bytes) => Some(bytes_of(bytes)),
                None => None,
            },
        }
    }
}

impl Reader {
    /// A stream of which nothing was read.
    pub fn new() -> (r: Reader)
        ensures
            r@ == (ReaderView { prefix: Seq::empty(), held: None }),
    {
        Reader { prefix: Vec::new(), held: None }
    }

    /// Begins a poll for data.
    pub fn poll_data(&mut self, state: &mut State) -> (step: ReadStep)
        ensures
            (final(self)@, final(state)@, step@) == old(self)@.poll(old(state)@),
    {
        match self.held.take() {
            Some(bytes) => {
                if state.paused {
                    state.encoder_held = true;
                    self.held = Some(bytes);
                    return ReadStep::Hold;
                }
                ReadStep::Deliver(bytes)
            },
            None => {
                if state.capturing {
                    ReadStep::Read
                } else {
                    ReadStep::Through
                }
            },
        }
    }

    /// Takes bytes that the transport gave, after [`ReadStep::Read`].
    pub fn read(&mut self, state: &mut State, id: u64, bytes: Bytes) -> (step: ReadStep)
        requires
            old(self)@.held is None,
        ensures
            (final(self)@, final(state)@, step@) == old(self)@.read(
                old(state)@,
                id,
                bytes_of(bytes),
            ),
    {
        let ghost before = self@;
        let ghost seen = state@;
        if self.prefix.len() < PREFIX {
            let room: usize = PREFIX - self.prefix.len();
            let data: &[u8] = buffer::as_slice(&bytes);
            let size: usize = if data.len() < room {
                data.len()
            } else {
                room
            };
            let kept: &[u8] = vstd::slice::slice_subrange(data, 0, size);
            assert(data@.len() <= room ==> kept@ =~= data@);
            assert(data@.len() > room ==> kept@ =~= data@.take(room as int));
            self.prefix.extend_from_slice(kept);
            let copy: Vec<u8> = vstd::slice::slice_to_vec(self.prefix.as_slice());
            let ghost captured = copy@;
            state.rx.insert(id, copy);
            assert(state@.rx =~= seen.rx.insert(id, captured));
        }
        assert(self.prefix@ =~= longer_prefix(before.prefix, bytes_of(bytes)));
        if id % 4 == 3 && state.paused {
            let mut prefix: &[u8] = self.prefix.as_slice();
            if let Some(2) = varint(&mut prefix) {
                state.encoder_held = true;
                self.held = Some(bytes);
                return ReadStep::Hold;
            }
        }
        ReadStep::Deliver(bytes)
    }
}

/// Bytes that were held back are delivered unchanged once the encoder stream may go on.
pub proof fn lemma_held_bytes_are_delivered(
    reader: ReaderView,
    state: StateView,
    id: u64,
    bytes: Seq<u8>,
    later: StateView,
)
    requires
        reader.read(state, id, bytes).2 is Hold,
        !later.paused,
    ensures
        reader.read(state, id, bytes).0.poll(later).2 == ReadStepView::Deliver(bytes),
{
}

/// Observation changes no byte: whatever is delivered is what the transport gave.
pub proof fn lemma_observation_is_transparent(
    reader: ReaderView,
    state: StateView,
    id: u64,
    bytes: Seq<u8>,
)
    requires
        !state.paused,
    ensures
        reader.read(state, id, bytes).2 == ReadStepView::Deliver(bytes),
{
}

} // verus!
