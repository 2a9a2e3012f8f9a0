//! Request framing: deciding when the bytes of a request have arrived.
//!
//! No header is parsed. A request counts as received as soon as the bytes
//! seen so far hold an empty line (`\r\n\r\n`), or when the peer stops
//! sending. Bytes are kept in a buffer of fixed capacity; a request that
//! outgrows it before the empty line shows up is an overflow.

use vstd::prelude::*;

verus! {

/// Number of bytes in the header terminator `\r\n\r\n`.
pub const TERMINATOR_LEN: usize = 4;

/// The header terminator starts at position `i` of `s`.
pub open spec fn terminator_at(s: Seq<u8>, i: int) -> bool {
    &&& 0 <= i
    &&& i + 4 <= s.len()
    &&& s[i] == 13u8
    &&& s[i + 1] == 10u8
    &&& s[i + 2] == 13u8
    &&& s[i + 3] == 10u8
}

/// `s` holds the header terminator somewhere.
pub open spec fn has_terminator(s: Seq<u8>) -> bool {
    exists|i: int| terminator_at(s, i)
}

/// `a` is an initial part of `b`.
pub open spec fn is_prefix(a: Seq<u8>, b: Seq<u8>) -> bool {
    &&& a.len() <= b.len()
    &&& forall|i: int| 0 <= i < a.len() ==> a[i] == b[i]
}

/// A terminator stays where it is when more bytes follow.
pub proof fn lemma_terminator_survives_growth(a: Seq<u8>, b: Seq<u8>)
    requires
        is_prefix(a, b),
        has_terminator(a),
    ensures
        has_terminator(b),
{
    let i = choose|i: int| terminator_at(a, i);
    assert(terminator_at(b, i));
}

/// Searches `bytes` for the header terminator.
pub fn contains_terminator(bytes: &[u8]) -> (found: bool)
    ensures
        found == has_terminator(bytes@),
{
    let n: usize = bytes.len();
    if n < TERMINATOR_LEN {
        assert(forall|i: int| !terminator_at(bytes@, i));
        return false;
    }
    let last: usize = n - TERMINATOR_LEN;
    let mut i: usize = 0;
    while i <= last
        invariant
            n == bytes@.len(),
            last + 4 == n,
            i <= last + 1,
            forall|j: int| 0 <= j < i ==> !terminator_at(bytes@, j),
        decreases last + 1 - i,
    {
        if bytes[i] == 13u8 && bytes[i + 1] == 10u8 && bytes[i + 2] == 13u8 && bytes[i + 3] == 10u8 {
            assert(terminator_at(bytes@, i as int));
            return true;
        }
        i += 1;
    }
    assert(forall|j: int| !terminator_at(bytes@, j));
    false
}

/// Where the framing of one request stands.
#[derive(Clone, Copy, Debug, PartialEq, Eq, Structural)]
pub enum FramerStatus {
    /// Neither the terminator nor the end of the peer's data was seen yet.
    NeedMore,
    /// The request counts as received; the response may start.
    Ready,
    /// More bytes arrived than the buffer holds, with no terminator among
    /// those that fit.
    Overflow,
}

/// The framer as a mathematical value.
pub struct FramerState {
    /// How many bytes the buffer holds at most.
    pub capacity: nat,
    /// The bytes kept so far, in the order of arrival.
    pub received: Seq<u8>,
    /// What has been decided about the request.
    pub status: FramerStatus,
}

/// What is decided about a request once `stream` has arrived from a peer
/// that is still sending, with a buffer of `capacity` bytes: ready if the
/// part of `stream` that fits the buffer holds the terminator, overflow if
/// it does not and `stream` is longer than the buffer, undecided otherwise.
pub open spec fn verdict(capacity: nat, stream: Seq<u8>) -> FramerStatus {
    if has_terminator(fitting(capacity, stream)) {
        FramerStatus::Ready
    } else if stream.len() > capacity {
        FramerStatus::Overflow
    } else {
        FramerStatus::NeedMore
    }
}

/// The part of `stream` that a buffer of `capacity` bytes can hold.
pub open spec fn fitting(capacity: nat, stream: Seq<u8>) -> Seq<u8> {
    if stream.len() <= capacity {
        stream
    } else {
        stream.take(capacity as int)
    }
}

impl FramerState {
    /// A framer that has seen nothing yet.
    pub open spec fn initial(capacity: nat) -> FramerState {
        FramerState { capacity, received: Seq::empty(), status: FramerStatus::NeedMore }
    }

    /// Bytes that still fit the buffer.
    pub open spec fn room(self) -> nat {
        (self.capacity - self.received.len()) as nat
    }

    /// The state after one read handed over `chunk`. An empty chunk means
    /// the peer sent nothing more. Once the status is decided nothing
    /// changes any more.
    pub open spec fn accept(self, chunk: Seq<u8>) -> FramerState {
        if self.status != FramerStatus::NeedMore {
            self
        } else if chunk.len() == 0 {
            FramerState { status: FramerStatus::Ready, ..self }
        } else {
            let kept = self.received + fitting(self.room(), chunk);
            FramerState {
                capacity: self.capacity,
                received: kept,
                status: if has_terminator(kept) {
                    FramerStatus::Ready
                } else if chunk.len() > self.room() {
                    FramerStatus::Overflow
                } else {
                    FramerStatus::NeedMore
                },
            }
        }
    }

    /// The state reached from `self` by the reads `chunks`, in order.
    pub open spec fn accept_all(self, chunks: Seq<Seq<u8>>) -> FramerState
        decreases chunks.len(),
    {
        if chunks.len() == 0 {
            self
        } else {
            self.accept_all(chunks.drop_last()).accept(chunks.last())
        }
    }
}

/// All bytes of `chunks`, one chunk after the other.
pub open spec fn joined(chunks: Seq<Seq<u8>>) -> Seq<u8>
    decreases chunks.len(),
{
    if chunks.len() == 0 {
        Seq::empty()
    } else {
        joined(chunks.drop_last()) + chunks.last()
    }
}

/// Collects the bytes of one request and decides when it has been received.
pub struct Framer {
    capacity: usize,
    buffer: Vec<u8>,
    status: FramerStatus,
}

impl Framer {
    /// The framer as a mathematical value.
    pub closed spec fn view(&self) -> FramerState {
        FramerState {
            capacity: self.capacity as nat,
            received: self.buffer@,
            status: self.status,
        }
    }

    /// The buffer never holds more than its capacity, and while the request
    /// is undecided it holds no terminator.
    pub open spec fn wf(&self) -> bool {
        &&& self@.received.len() <= self@.capacity
        &&& self@.status == FramerStatus::NeedMore ==> !has_terminator(self@.received)
    }

    /// A framer with an empty buffer of `capacity` bytes.
    pub fn new(capacity: usize) -> (framer: Framer)
        ensures
            framer.wf(),
            framer@ == FramerState::initial(capacity as nat),
    {
        let framer = Framer { capacity, buffer: Vec::new(), status: FramerStatus::NeedMore };
        assert(forall|i: int| !terminator_at(framer@.received, i));
        framer
    }

    /// What has been decided about the request.
    pub fn status(&self) -> (status: FramerStatus)
        ensures
            status == self@.status,
    {
        self.status
    }

    /// Number of bytes kept so far.
    pub fn cursor(&self) -> (cursor: usize)
        ensures
            cursor == self@.received.len(),
    {
        self.buffer.len()
    }

    /// Number of bytes the buffer holds at most.
    pub fn capacity(&self) -> (capacity: usize)
        ensures
            capacity == self@.capacity,
    {
        self.capacity
    }

    /// The bytes kept so far.
    pub fn received(&self) -> (bytes: &[u8])
        ensures
            bytes@ == self@.received,
    {
        self.buffer.as_slice()
    }

    /// Number of bytes that still fit the buffer.
    pub fn room(&self) -> (room: usize)
        requires
            self.wf(),
        ensures
            room == self@.room(),
    {
        self.capacity - self.buffer.len()
    }

    /// How many bytes the next read should ask for at most: what still fits,
    /// and a single byte once the buffer is full, so that a peer that keeps
    /// sending is told apart from one that has finished.
    pub fn read_limit(&self) -> (limit: usize)
        requires
            self.wf(),
        ensures
            limit == read_limit(self@),
    {
        let room = self.room();
        if room == 0 {
            1
        } else {
            room
        }
    }

    /// Takes in what one read returned. An empty `chunk` means that the peer
    /// has stopped sending, which settles the request as received. Bytes
    /// past the buffer's capacity are not kept.
    pub fn feed(&mut self, chunk: &[u8]) -> (status: FramerStatus)
        requires
            old(self).wf(),
        ensures
            final(self).wf(),
            final(self)@ == old(self)@.accept(chunk@),
            status == final(self)@.status,
    {
        if self.status != FramerStatus::NeedMore {
            return self.status;
        }
        if chunk.len() == 0 {
            self.status = FramerStatus::Ready;
            return self.status;
        }
        let room: usize = self.capacity - self.buffer.len();
        let take: usize = if chunk.len() <= room { chunk.len() } else { room };
        let ghost before = self.buffer@;
        let mut i: usize = 0;
        while i < take
            invariant
                i <= take,
                take <= chunk@.len(),
                self.capacity == old(self).capacity,
                self.status == old(self).status,
                self.buffer@ == before + chunk@.take(i as int),
            decreases take - i,
        {
            self.buffer.push(chunk[i]);
            i += 1;
            assert(self.buffer@ =~= before + chunk@.take(i as int));
        }
        assert(chunk@.take(take as int) =~= fitting(room as nat, chunk@));
        if contains_terminator(self.buffer.as_slice()) {
            self.status = FramerStatus::Ready;
        } else if chunk.len() > room {
            self.status = FramerStatus::Overflow;
        }
        self.status
    }
}

/// The most bytes that the next read should ask for.
pub open spec fn read_limit(state: FramerState) -> nat {
    if state.room() == 0 {
        1
    } else {
        state.room()
    }
}

/// How the reads cut a stream into chunks does not matter: after any run of
/// non-empty reads the framer has decided exactly what `verdict` says of the
/// bytes that arrived in total. While the request is undecided the buffer
/// holds all of them.
pub proof fn lemma_chunking_does_not_matter(capacity: nat, chunks: Seq<Seq<u8>>)
    requires
        forall|k: int| 0 <= k < chunks.len() ==> (#[trigger] chunks[k]).len() > 0,
    ensures
        FramerState::initial(capacity).accept_all(chunks).status == verdict(
            capacity,
            joined(chunks),
        ),
        FramerState::initial(capacity).accept_all(chunks).capacity == capacity,
        FramerState::initial(capacity).accept_all(chunks).received.len() <= capacity,
        FramerState::initial(capacity).accept_all(chunks).status == FramerStatus::NeedMore
            ==> FramerState::initial(capacity).accept_all(chunks).received == joined(chunks),
    decreases chunks.len(),
{
    let start = FramerState::initial(capacity);
    if chunks.len() == 0 {
        assert(forall|i: int| !terminator_at(joined(chunks), i));
    } else {
        let earlier = chunks.drop_last();
        let chunk = chunks.last();
        lemma_chunking_does_not_matter(capacity, earlier);
        let before = start.accept_all(earlier);
        let p = joined(earlier);
        let j = joined(chunks);
        assert(j == p + chunk);
        assert(is_prefix(fitting(capacity, p), fitting(capacity, j)));
        match before.status {
            FramerStatus::Ready => {
                lemma_terminator_survives_growth(fitting(capacity, p), fitting(capacity, j));
            },
            FramerStatus::Overflow => {
                assert(fitting(capacity, j) =~= fitting(capacity, p));
            },
            FramerStatus::NeedMore => {
                let kept = before.received + fitting(before.room(), chunk);
                assert(kept =~= fitting(capacity, j));
            },
        }
    }
}

/// A request that has been decided stays decided: later reads change nothing.
pub proof fn lemma_decided_is_final(state: FramerState, chunk: Seq<u8>)
    requires
        state.status != FramerStatus::NeedMore,
    ensures
        state.accept(chunk) == state,
{
}

/// A peer that stops sending settles an undecided request as received,
/// whatever has arrived so far.
pub proof fn lemma_close_settles_request(state: FramerState)
    requires
        state.status == FramerStatus::NeedMore,
    ensures
        state.accept(Seq::empty()).status == FramerStatus::Ready,
        state.accept(Seq::empty()).received == state.received,
{
}

/// A verdict that has fallen does not change when more bytes follow: the
/// first point at which a stream is ready, or has overflowed, is the only one.
pub proof fn lemma_verdict_is_settled(capacity: nat, stream: Seq<u8>, more: Seq<u8>)
    requires
        verdict(capacity, stream) != FramerStatus::NeedMore,
    ensures
        verdict(capacity, stream + more) == verdict(capacity, stream),
{
    let longer = stream + more;
    assert(is_prefix(fitting(capacity, stream), fitting(capacity, longer)));
    if has_terminator(fitting(capacity, stream)) {
        lemma_terminator_survives_growth(fitting(capacity, stream), fitting(capacity, longer));
    } else {
        assert(fitting(capacity, longer) =~= fitting(capacity, stream));
    }
}

} // verus!
