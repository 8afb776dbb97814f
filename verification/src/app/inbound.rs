//! What arrives from the phone: bytes are gathered per session, cut into envelopes, and the chunks
//! of a message are put together.
use crate::app::chunk;
use crate::app::chunk::{parse_one_chunk_envelope, Chunk, ChunkEnvelopeParse, ChunkModel, ParseModel};
use crate::buffer;
use crate::table::TextMap;
use bytes::{Bytes, BytesMut};
use std::collections::HashMap;
use vstd::prelude::*;

verus! {

broadcast use vstd::std_specs::hash::group_hash_axioms;

/// The most bytes that are kept for a session while an envelope is incomplete.
pub const MAX_INBOUND_BUFFER: usize = 262144;

/// The chunks of messages that are not complete yet.
pub struct PendingChunks {
    messages: TextMap<HashMap<u16, Bytes>>,
}

/// The bytes of each chunk.
pub open spec fn chunk_bytes(received: Map<u16, Bytes>) -> Map<u16, Seq<u8>> {
    received.map_values(|b: Bytes| buffer::payload(b))
}

impl View for PendingChunks {
    type V = Map<Seq<char>, Map<u16, Seq<u8>>>;

    closed spec fn view(&self) -> Map<Seq<char>, Map<u16, Seq<u8>>> {
        self.messages@.map_values(|m: HashMap<u16, Bytes>| chunk_bytes(m@))
    }
}

/// What a chunk brings about: nothing yet, a whole message, or a request to send it again.
pub enum Delivery {
    Nothing,
    Complete(Bytes),
    Retransmit,
}

/// What a delivery says, apart from how it is stored.
pub enum DeliveryModel {
    Nothing,
    Complete(Seq<u8>),
    Retransmit,
}

impl View for Delivery {
    type V = DeliveryModel;

    open spec fn view(&self) -> DeliveryModel {
        match self {
            Delivery::Nothing => DeliveryModel::Nothing,
            Delivery::Complete(data) => DeliveryModel::Complete(buffer::payload(*data)),
            Delivery::Retransmit => DeliveryModel::Retransmit,
        }
    }
}

/// The first `n` chunks in order, where each is there and holds something.
pub open spec fn assembled(received: Map<u16, Seq<u8>>, n: nat) -> Option<Seq<u8>>
    decreases n,
{
    if n == 0 {
        Some(Seq::empty())
    } else {
        let i = (n - 1) as u16;
        match assembled(received, (n - 1) as nat) {
            Some(data) => if received.contains_key(i) && received[i].len() > 0 {
                Some(data + received[i])
            } else {
                None
            },
            None => None,
        }
    }
}

/// The chunks that are known of a message.
pub open spec fn received_of(
    pending: Map<Seq<char>, Map<u16, Seq<u8>>>,
    id: Seq<char>,
) -> Map<u16, Seq<u8>> {
    if pending.contains_key(id) {
        pending[id]
    } else {
        Map::empty()
    }
}

/// What one chunk makes of the pending messages, and what it brings about.
pub open spec fn chunk_added(
    pending: Map<Seq<char>, Map<u16, Seq<u8>>>,
    c: ChunkModel,
) -> (Map<Seq<char>, Map<u16, Seq<u8>>>, DeliveryModel) {
    if c.index >= c.total || c.total == 0 {
        (pending, DeliveryModel::Nothing)
    } else if buffer::crc32(c.payload) != c.checksum {
        (pending, DeliveryModel::Retransmit)
    } else if c.total == 1 {
        (pending, DeliveryModel::Complete(c.payload))
    } else {
        let received = received_of(pending, c.message_id).insert(c.index, c.payload);
        if received.dom().len() == c.total as nat {
            (
                pending.remove(c.message_id),
                match assembled(received, c.total as nat) {
                    Some(data) => DeliveryModel::Complete(data),
                    None => DeliveryModel::Nothing,
                },
            )
        } else {
            (pending.insert(c.message_id, received), DeliveryModel::Nothing)
        }
    }
}

/// Every chunk that is kept is as short as an envelope can make it.
pub open spec fn chunks_bounded(pending: Map<Seq<char>, Map<u16, Seq<u8>>>) -> bool {
    forall|id: Seq<char>, i: u16|
        pending.contains_key(id) && #[trigger] pending[id].contains_key(i) ==> pending[id][i].len()
            <= 0xffff
}

impl PendingChunks {
    /// No message is pending.
    pub fn new() -> (r: PendingChunks)
        ensures
            r@ == Map::<Seq<char>, Map<u16, Seq<u8>>>::empty(),
    {
        let r = PendingChunks { messages: TextMap::new() };
        assert(r@ =~= Map::<Seq<char>, Map<u16, Seq<u8>>>::empty());
        r
    }

    /// Takes in a chunk of a message that fits in memory however long its chunks are.
    pub fn add_chunk_to_pending(&mut self, c: Chunk) -> (r: Delivery)
        requires
            c.total * 0xffff <= isize::MAX,
            buffer::payload(c.payload).len() <= 0xffff,
            chunks_bounded(old(self)@),
        ensures
            (final(self)@, r@) == chunk_added(old(self)@, c@),
            chunks_bounded(final(self)@),
    {
        if c.index >= c.total || c.total == 0 {
            return Delivery::Nothing;
        }
        if buffer::crc32_of(buffer::bytes_slice(&c.payload)) != c.checksum {
            return Delivery::Retransmit;
        }
        if c.total == 1 {
            return Delivery::Complete(c.payload);
        }
        let ghost before = self@;
        let ghost known = self.messages@;
        let ghost cm = c@;
        let total: u16 = c.total;
        let mut received = match self.messages.remove(c.message_id.as_str()) {
            Some(m) => m,
            None => HashMap::new(),
        };
        assert(chunk_bytes(received@) =~= received_of(before, cm.message_id));
        received.insert(c.index, c.payload);
        let ghost model = received_of(before, cm.message_id).insert(cm.index, cm.payload);
        assert(chunk_bytes(received@) =~= model);
        assert(received@.dom() =~= model.dom());
        assert forall|i: u16| #[trigger] model.contains_key(i) implies model[i].len() <= 0xffff by {
            if i != cm.index {
                assert(before[cm.message_id].contains_key(i));
            }
        }
        if received.len() == total as usize {
            let data = assemble(&received, total);
            assert(self@ =~= before.remove(cm.message_id));
            assert forall|id: Seq<char>, i: u16|
                self@.contains_key(id) && #[trigger] self@[id].contains_key(i) implies self@[id][i].len()
                <= 0xffff by {
                assert(before[id].contains_key(i));
            }
            match data {
                Some(d) => Delivery::Complete(d),
                None => Delivery::Nothing,
            }
        } else {
            self.messages.insert(c.message_id, received);
            assert(self@ =~= before.insert(cm.message_id, model));
            assert forall|id: Seq<char>, i: u16|
                self@.contains_key(id) && #[trigger] self@[id].contains_key(i) implies self@[id][i].len()
                <= 0xffff by {
                if id != cm.message_id {
                    assert(before[id].contains_key(i));
                }
            }
            Delivery::Nothing
        }
    }
}

/// What `n` chunks of at most that many bytes add up to.
proof fn lemma_assembled_len(received: Map<u16, Seq<u8>>, n: nat)
    requires
        n <= 0x1_0000,
        forall|i: u16| #[trigger] received.contains_key(i) ==> received[i].len() <= 0xffff,
    ensures
        assembled(received, n) matches Some(data) ==> data.len() <= n * 0xffff,
    decreases n,
{
    if n > 0 {
        lemma_assembled_len(received, (n - 1) as nat);
        assert((n - 1) * 0xffff + 0xffff == n * 0xffff) by (nonlinear_arith);
    }
}

/// A chunk that is missing stays missing in all that follows.
proof fn lemma_assembled_none(received: Map<u16, Seq<u8>>, k: nat, n: nat)
    requires
        k <= n,
        assembled(received, k) is None,
    ensures
        assembled(received, n) is None,
    decreases n,
{
    if k < n {
        lemma_assembled_none(received, k, (n - 1) as nat);
    }
}

fn assemble(received: &HashMap<u16, Bytes>, total: u16) -> (r: Option<Bytes>)
    requires
        total * 0xffff <= isize::MAX,
        forall|i: u16| #[trigger]
            chunk_bytes(received@).contains_key(i) ==> chunk_bytes(received@)[i].len() <= 0xffff,
    ensures
        match r {
            Some(data) => assembled(chunk_bytes(received@), total as nat) == Some(
                buffer::payload(data),
            ),
            None => assembled(chunk_bytes(received@), total as nat) is None,
        },
{
    let ghost model = chunk_bytes(received@);
    let mut data = buffer::new_buffer();
    let mut i: u16 = 0;
    while i < total
        invariant
            i <= total,
            total * 0xffff <= isize::MAX,
            model == chunk_bytes(received@),
            forall|i: u16| #[trigger] model.contains_key(i) ==> model[i].len() <= 0xffff,
            assembled(model, i as nat) == Some(buffer::held(data)),
        decreases total - i,
    {
        proof {
            lemma_assembled_len(model, i as nat);
        }
        let whole = match received.get(&i) {
            Some(piece) => {
                assert(model.contains_key(i) && model[i] == buffer::payload(*piece));
                let bytes = buffer::bytes_slice(piece);
                if bytes.len() > 0 {
                    buffer::buffer_put_slice(&mut data, bytes);
                    true
                } else {
                    false
                }
            },
            None => false,
        };
        assert(whole ==> assembled(model, (i + 1) as nat) == Some(buffer::held(data)));
        if !whole {
            proof {
                assert(assembled(model, (i + 1) as nat) is None);
                lemma_assembled_none(model, (i + 1) as nat, total as nat);
            }
            return None;
        }
        i += 1;
    }
    Some(buffer::buffer_freeze(data))
}

/// A request to send a chunk again.
pub struct Retransmission {
    pub message_id: String,
    pub chunk_idx: u16,
}

impl View for Retransmission {
    type V = (Seq<char>, u16);

    open spec fn view(&self) -> (Seq<char>, u16) {
        (self.message_id@, self.chunk_idx)
    }
}

/// What came of some bytes: whole messages, chunks to ask for again, and bytes that are no
/// envelope, which are a message of their own if they decode as one.
pub struct Arrived {
    pub completed: Vec<Bytes>,
    pub retransmissions: Vec<Retransmission>,
    pub undecided: Option<Bytes>,
}

/// What arrived, apart from how it is stored.
#[verifier::ext_equal]
pub struct ArrivedModel {
    pub completed: Seq<Seq<u8>>,
    pub retransmissions: Seq<(Seq<char>, u16)>,
    pub undecided: Option<Seq<u8>>,
}

/// The bytes of a run, where there is one.
pub open spec fn optional_payload(bytes: Option<Bytes>) -> Option<Seq<u8>> {
    match bytes {
        Some(b) => Some(buffer::payload(b)),
        None => None,
    }
}

impl View for Arrived {
    type V = ArrivedModel;

    open spec fn view(&self) -> ArrivedModel {
        ArrivedModel {
            completed: chunk::payloads(self.completed@),
            retransmissions: self.retransmissions@.map_values(|r: Retransmission| r@),
            undecided: optional_payload(self.undecided),
        }
    }
}

/// Nothing arrived.
pub open spec fn nothing_arrived() -> ArrivedModel {
    ArrivedModel { completed: Seq::empty(), retransmissions: Seq::empty(), undecided: None }
}

/// A delivery for a chunk, followed by what arrived after it.
pub open spec fn delivery_first(c: ChunkModel, d: DeliveryModel, rest: ArrivedModel) -> ArrivedModel {
    match d {
        DeliveryModel::Nothing => rest,
        DeliveryModel::Complete(data) => ArrivedModel {
            completed: seq![data] + rest.completed,
            ..rest
        },
        DeliveryModel::Retransmit => ArrivedModel {
            retransmissions: seq![(c.message_id, c.index)] + rest.retransmissions,
            ..rest
        },
    }
}

/// What is left of a session's bytes and of the pending messages, and what arrived.
#[verifier::ext_equal]
pub struct Drained {
    pub rest: Seq<u8>,
    pub pending: Map<Seq<char>, Map<u16, Seq<u8>>>,
    pub arrived: ArrivedModel,
}

/// Cuts a session's bytes into envelopes and takes in their chunks. An incomplete envelope is
/// kept; what is no envelope is dropped with all that follows it.
pub open spec fn drained(data: Seq<u8>, pending: Map<Seq<char>, Map<u16, Seq<u8>>>) -> Drained
    decreases data.len(),
{
    if data.len() == 0 {
        Drained { rest: data, pending, arrived: nothing_arrived() }
    } else if data[0] == 0x24 {
        match chunk::parsed(data) {
            ParseModel::NeedMore => Drained { rest: data, pending, arrived: nothing_arrived() },
            ParseModel::Invalid => Drained {
                rest: Seq::empty(),
                pending,
                arrived: nothing_arrived(),
            },
            ParseModel::Complete { chunk, consumed } => {
                let (next, delivery) = chunk_added(pending, chunk);
                let after = drained(data.skip(consumed as int), next);
                Drained {
                    rest: after.rest,
                    pending: after.pending,
                    arrived: delivery_first(chunk, delivery, after.arrived),
                }
            },
        }
    } else {
        Drained {
            rest: Seq::empty(),
            pending,
            arrived: ArrivedModel { undecided: Some(data), ..nothing_arrived() },
        }
    }
}

/// What arrived, followed by what arrived later.
pub open spec fn followed(first: ArrivedModel, later: ArrivedModel) -> ArrivedModel {
    ArrivedModel {
        completed: first.completed + later.completed,
        retransmissions: first.retransmissions + later.retransmissions,
        undecided: later.undecided,
    }
}

/// The sessions' bytes and the pending messages.
pub struct Inbound {
    buffers: HashMap<u8, BytesMut>,
    pending: PendingChunks,
}

/// The state of the inbound side, apart from how it is stored.
#[verifier::ext_equal]
pub struct InboundModel {
    pub buffers: Map<u8, Seq<u8>>,
    pub pending: Map<Seq<char>, Map<u16, Seq<u8>>>,
}

impl View for Inbound {
    type V = InboundModel;

    closed spec fn view(&self) -> InboundModel {
        InboundModel {
            buffers: self.buffers@.map_values(|b: BytesMut| buffer::held(b)),
            pending: self.pending@,
        }
    }
}

impl InboundModel {
    /// Nothing is kept.
    pub open spec fn empty() -> InboundModel {
        InboundModel { buffers: Map::empty(), pending: Map::empty() }
    }

    /// The chunks that are kept are as short as an envelope can make them.
    pub open spec fn well_formed(self) -> bool {
        chunks_bounded(self.pending)
    }

    /// The bytes that are kept for a session.
    pub open spec fn buffered(self, session: u8) -> Seq<u8> {
        if self.buffers.contains_key(session) {
            self.buffers[session]
        } else {
            Seq::empty()
        }
    }

    /// The bytes that are cut when more come in: where the cap would be passed, what was kept is
    /// dropped first.
    pub open spec fn gathered(self, session: u8, data: Seq<u8>) -> Seq<u8> {
        if self.buffered(session).len() + data.len() > MAX_INBOUND_BUFFER {
            data
        } else {
            self.buffered(session) + data
        }
    }

    /// The state after bytes came in for a session.
    pub open spec fn received(self, session: u8, data: Seq<u8>) -> InboundModel {
        let d = drained(self.gathered(session, data), self.pending);
        InboundModel { buffers: self.buffers.insert(session, d.rest), pending: d.pending }
    }

    /// What arrives when bytes come in for a session.
    pub open spec fn arrives(self, session: u8, data: Seq<u8>) -> ArrivedModel {
        drained(self.gathered(session, data), self.pending).arrived
    }
}

/// A chunk in an envelope is short, and its numbers are in range.
proof fn lemma_parsed_bounds(data: Seq<u8>)
    ensures
        chunk::parsed(data) matches ParseModel::Complete { chunk, consumed } ==> {
            &&& chunk.total <= 1000
            &&& chunk.payload.len() <= 0xffff
            &&& chunk::HEADER_LEN <= consumed <= data.len()
        },
{
}

impl Inbound {
    /// Nothing is kept.
    pub fn new() -> (r: Inbound)
        ensures
            r@ == InboundModel::empty(),
            r@.well_formed(),
    {
        let r = Inbound { buffers: HashMap::new(), pending: PendingChunks::new() };
        assert(r@ =~= InboundModel::empty());
        r
    }

    /// Takes in bytes of a session.
    pub fn process_inbound(&mut self, session_id: u8, new_data: &[u8]) -> (r: Arrived)
        requires
            old(self)@.well_formed(),
            new_data@.len() <= isize::MAX,
        ensures
            final(self)@ == old(self)@.received(session_id, new_data@),
            r@ == old(self)@.arrives(session_id, new_data@),
            final(self)@.well_formed(),
    {
        let ghost before = self@;
        let mut gathered = match self.buffers.remove(&session_id) {
            Some(b) => b,
            None => buffer::new_buffer(),
        };
        assert(buffer::held(gathered) == before.buffered(session_id));
        let kept: usize = buffer::buffer_slice(&gathered).len();
        if kept > MAX_INBOUND_BUFFER || new_data.len() > MAX_INBOUND_BUFFER - kept {
            buffer::buffer_clear(&mut gathered);
            assert(Seq::<u8>::empty() + new_data@ =~= new_data@);
        }
        buffer::buffer_extend(&mut gathered, new_data);
        let ghost goal = drained(buffer::held(gathered), self.pending@);
        assert(goal == drained(before.gathered(session_id, new_data@), before.pending));
        let mut out = Arrived {
            completed: Vec::new(),
            retransmissions: Vec::new(),
            undecided: None,
        };
        assert(out@ =~= nothing_arrived());
        assert(followed(out@, goal.arrived) =~= goal.arrived);
        let mut more = true;
        while more
            invariant
                chunks_bounded(self.pending@),
                self.buffers@ == old(self).buffers@.remove(session_id),
                more ==> {
                    &&& out@.undecided is None
                    &&& goal.rest == drained(buffer::held(gathered), self.pending@).rest
                    &&& goal.pending == drained(buffer::held(gathered), self.pending@).pending
                    &&& goal.arrived == followed(
                        out@,
                        drained(buffer::held(gathered), self.pending@).arrived,
                    )
                },
                !more ==> goal.rest == buffer::held(gathered) && goal.pending == self.pending@
                    && goal.arrived == out@,
            decreases (if more { 1int } else { 0int }), buffer::held(gathered).len(),
        {
            let ghost data = buffer::held(gathered);
            let ghost pending = self.pending@;
            let bytes = buffer::buffer_slice(&gathered);
            if bytes.len() == 0 {
                more = false;
                assert(followed(out@, nothing_arrived()) =~= out@);
            } else if bytes[0] == 0x24 {
                proof {
                    lemma_parsed_bounds(data);
                }
                match parse_one_chunk_envelope(bytes) {
                    ChunkEnvelopeParse::NeedMore => {
                        more = false;
                        assert(followed(out@, nothing_arrived()) =~= out@);
                    },
                    ChunkEnvelopeParse::Invalid => {
                        buffer::buffer_clear(&mut gathered);
                        more = false;
                        assert(followed(out@, nothing_arrived()) =~= out@);
                    },
                    ChunkEnvelopeParse::Complete { chunk, consumed } => {
                        let ghost first = out@;
                        let ghost cm = chunk@;
                        let message_id = chunk.message_id.clone();
                        let chunk_idx: u16 = chunk.index;
                        buffer::buffer_advance(&mut gathered, consumed);
                        let delivery = self.pending.add_chunk_to_pending(chunk);
                        let ghost later = drained(buffer::held(gathered), self.pending@).arrived;
                        match delivery {
                            Delivery::Nothing => {},
                            Delivery::Complete(whole) => {
                                let ghost w = buffer::payload(whole);
                                out.completed.push(whole);
                                assert(out@.completed =~= first.completed.push(w));
                                assert(first.completed.push(w) + later.completed
                                    =~= first.completed + (seq![w] + later.completed));
                            },
                            Delivery::Retransmit => {
                                out.retransmissions.push(Retransmission { message_id, chunk_idx });
                                let ghost w = (cm.message_id, cm.index);
                                assert(out@.retransmissions =~= first.retransmissions.push(w));
                                assert(first.retransmissions.push(w) + later.retransmissions
                                    =~= first.retransmissions + (seq![w] + later.retransmissions));
                            },
                        }
                        assert(goal.arrived =~= followed(out@, later));
                    },
                }
            } else {
                out.undecided = Some(buffer::bytes_copy(bytes));
                buffer::buffer_clear(&mut gathered);
                more = false;
                assert(goal.arrived =~= out@);
            }
        }
        self.buffers.insert(session_id, gathered);
        assert(self@ =~= before.received(session_id, new_data@));
        out
    }
}

/// The whole messages among what arrived: those put together from chunks, and the bytes that are
/// no envelope where they decode as a message.
pub open spec fn settled(arrived: ArrivedModel, is_message: bool) -> Seq<Seq<u8>> {
    match arrived.undecided {
        Some(data) => if is_message {
            arrived.completed.push(data)
        } else {
            arrived.completed
        },
        None => arrived.completed,
    }
}

/// Picks the whole messages out of what arrived, once it is known whether the bytes that are no
/// envelope decode as a message.
pub fn settle(arrived: Arrived, is_message: bool) -> (r: Vec<Bytes>)
    ensures
        chunk::payloads(r@) == settled(arrived@, is_message),
{
    let ghost model = arrived@;
    let mut completed = arrived.completed;
    if let Some(data) = arrived.undecided {
        if is_message {
            completed.push(data);
            assert(chunk::payloads(completed@) =~= settled(model, is_message));
        }
    }
    completed
}

/// A chunk that was damaged on its way changes nothing and is asked for again, by its message and
/// its place; one without a place in its message changes nothing and is not asked for.
pub proof fn law_damaged_chunk_is_asked_for_again(
    pending: Map<Seq<char>, Map<u16, Seq<u8>>>,
    c: ChunkModel,
    rest: ArrivedModel,
)
    ensures
        c.index < c.total && buffer::crc32(c.payload) != c.checksum ==> {
            &&& chunk_added(pending, c).0 == pending
            &&& chunk_added(pending, c).1 is Retransmit
            &&& delivery_first(c, chunk_added(pending, c).1, rest).retransmissions == seq![
                (c.message_id, c.index),
            ] + rest.retransmissions
            &&& delivery_first(c, chunk_added(pending, c).1, rest).completed == rest.completed
        },
        c.index >= c.total ==> chunk_added(pending, c).0 == pending && chunk_added(pending, c).1
            is Nothing,
        chunk_added(pending, c).1 is Retransmit ==> buffer::crc32(c.payload) != c.checksum,
        delivery_first(c, chunk_added(pending, c).1, rest).undecided == rest.undecided,
{
}

/// Bytes of one session leave what is kept of every other session as it is, and bytes that would
/// make too much of a session count as if they were its first.
pub proof fn law_sessions_are_kept_apart(m: InboundModel, session: u8, other: u8, data: Seq<u8>)
    ensures
        other != session ==> m.received(session, data).buffered(other) == m.buffered(other),
        m.buffered(session).len() + data.len() > MAX_INBOUND_BUFFER ==> {
            let fresh = InboundModel { buffers: m.buffers.remove(session), ..m };
            &&& m.arrives(session, data) == fresh.arrives(session, data)
            &&& m.received(session, data).buffered(session) == fresh.received(
                session,
                data,
            ).buffered(session)
            &&& m.received(session, data).pending == fresh.received(session, data).pending
        },
{
    let fresh = InboundModel { buffers: m.buffers.remove(session), ..m };
    assert(fresh.buffered(session) =~= Seq::empty());
    assert(Seq::<u8>::empty() + data =~= data);
}

/// Bytes that are no envelope are handed out as they are, nothing is kept of them, and they count
/// as a message just where they decode as one.
pub proof fn law_other_bytes_are_handed_out(
    data: Seq<u8>,
    pending: Map<Seq<char>, Map<u16, Seq<u8>>>,
    arrived: ArrivedModel,
    is_message: bool,
)
    ensures
        data.len() > 0 && data[0] != 36 ==> {
            &&& drained(data, pending).arrived.undecided == Some(data)
            &&& drained(data, pending).arrived.completed.len() == 0
            &&& drained(data, pending).arrived.retransmissions.len() == 0
            &&& drained(data, pending).rest.len() == 0
            &&& drained(data, pending).pending == pending
        },
        arrived.completed.is_prefix_of(settled(arrived, is_message)),
        arrived.undecided is None || !is_message ==> settled(arrived, is_message)
            == arrived.completed,
        is_message ==> (arrived.undecided matches Some(d) ==> settled(arrived, is_message)
            == arrived.completed.push(d)),
{
    let s = settled(arrived, is_message);
    assert(arrived.completed =~= s.subrange(0, arrived.completed.len() as int));
}

} // verus!
