//! What holds of a message on its way over the link to the phone: whatever the order of its chunks
//! and wherever the stream is cut, the bytes that were sent come out.
use crate::app::chunk;
use crate::app::chunk::{ChunkModel, ParseModel};
use crate::app::inbound;
use crate::app::inbound::{ArrivedModel, DeliveryModel, Drained, InboundModel};
use crate::buffer;
use vstd::prelude::*;
use vstd::utf8::*;

verus! {

proof fn lemma_big_endian(n: u16, m: u32)
    ensures
        buffer::from_big_endian_16(buffer::big_endian_16(n)) == n,
        buffer::from_big_endian_32(buffer::big_endian_32(m)) == m,
{
    assert(m / 0x1_0000 % 0x100 == (m / 0x1_0000) % 0x100);
    assert((m / 0x100_0000) * 0x100_0000 + (m / 0x1_0000 % 0x100) * 0x1_0000 + (m / 0x100 % 0x100)
        * 0x100 + m % 0x100 == m) by (bit_vector);
}

proof fn lemma_envelope_layout(id: Seq<char>, index: u16, total: u16, data: Seq<u8>, rest: Seq<u8>)
    requires
        chunk::envelope_id(id),
        data.len() <= 0xffff,
    ensures
        ({
            let e = chunk::envelope(id, index, total, data);
            let s = e + rest;
            &&& e.len() == chunk::HEADER_LEN + data.len()
            &&& s[0] == 36
            &&& s.subrange(1, 37) == encode_utf8(id)
            &&& s.subrange(37, 39) == buffer::big_endian_16(index)
            &&& s.subrange(39, 41) == buffer::big_endian_16(total)
            &&& s.subrange(41, 45) == buffer::big_endian_32(buffer::crc32(data))
            &&& s.subrange(45, 47) == buffer::big_endian_16(data.len() as u16)
            &&& s.subrange(47, 47 + data.len() as int) == data
        }),
{
    is_ascii_chars_encode_utf8(id);
    let s = chunk::envelope(id, index, total, data) + rest;
    assert(s.subrange(1, 37) =~= encode_utf8(id));
    assert(s.subrange(37, 39) =~= buffer::big_endian_16(index));
    assert(s.subrange(39, 41) =~= buffer::big_endian_16(total));
    assert(s.subrange(41, 45) =~= buffer::big_endian_32(buffer::crc32(data)));
    assert(s.subrange(45, 47) =~= buffer::big_endian_16(data.len() as u16));
    assert(s.subrange(47, 47 + data.len() as int) =~= data);
}

/// An envelope at the beginning of a stream reads back as what was put into it, whatever follows.
pub proof fn law_envelope_reads_back(
    id: Seq<char>,
    index: u16,
    total: u16,
    data: Seq<u8>,
    rest: Seq<u8>,
)
    requires
        chunk::envelope_id(id),
        index < total <= 1000,
        data.len() <= 0xffff,
    ensures
        chunk::parsed(chunk::envelope(id, index, total, data) + rest) == (ParseModel::Complete {
            chunk: ChunkModel {
                message_id: id,
                index,
                total,
                checksum: buffer::crc32(data),
                payload: data,
            },
            consumed: chunk::envelope(id, index, total, data).len(),
        }),
{
    lemma_envelope_layout(id, index, total, data, rest);
    lemma_big_endian(index, buffer::crc32(data));
    lemma_big_endian(total, 0);
    lemma_big_endian(data.len() as u16, 0);
    encode_utf8_valid_utf8(id);
    encode_utf8_decode_utf8(id);
}

/// A stream that breaks off within an envelope is one to wait for.
pub proof fn law_part_of_envelope_needs_more(
    id: Seq<char>,
    index: u16,
    total: u16,
    data: Seq<u8>,
    k: int,
)
    requires
        chunk::envelope_id(id),
        index < total <= 1000,
        data.len() <= 0xffff,
        0 <= k < chunk::envelope(id, index, total, data).len(),
    ensures
        chunk::parsed(chunk::envelope(id, index, total, data).take(k)) == ParseModel::NeedMore,
{
    let e = chunk::envelope(id, index, total, data);
    let t = e.take(k);
    lemma_envelope_layout(id, index, total, data, Seq::empty());
    assert(e + Seq::<u8>::empty() =~= e);
    if k >= chunk::HEADER_LEN {
        assert(t.subrange(1, 37) =~= e.subrange(1, 37));
        assert(t.subrange(37, 39) =~= e.subrange(37, 39));
        assert(t.subrange(39, 41) =~= e.subrange(39, 41));
        assert(t.subrange(45, 47) =~= e.subrange(45, 47));
        lemma_big_endian(index, 0);
        lemma_big_endian(total, 0);
        lemma_big_endian(data.len() as u16, 0);
        encode_utf8_valid_utf8(id);
        encode_utf8_decode_utf8(id);
    }
}

/// What a stream holds at its beginning does not change when more follows, but for what was too
/// little to tell.
pub proof fn law_more_bytes_keep_the_reading(a: Seq<u8>, b: Seq<u8>)
    requires
        chunk::parsed(a) != ParseModel::NeedMore,
    ensures
        chunk::parsed(a + b) == chunk::parsed(a),
{
    let s = a + b;
    if a.len() >= chunk::HEADER_LEN {
        assert(s.subrange(1, 37) =~= a.subrange(1, 37));
        assert(s.subrange(37, 39) =~= a.subrange(37, 39));
        assert(s.subrange(39, 41) =~= a.subrange(39, 41));
        assert(s.subrange(41, 45) =~= a.subrange(41, 45));
        assert(s.subrange(45, 47) =~= a.subrange(45, 47));
        let to = chunk::HEADER_LEN + buffer::from_big_endian_16(a.subrange(45, 47));
        if a.len() >= to {
            assert(s.subrange(47, to) =~= a.subrange(47, to));
        }
    }
}

/// A chunk leaves every other message as it was, and what it brings about depends on its own
/// message alone.
pub proof fn law_chunk_touches_its_own_message(
    pending: Map<Seq<char>, Map<u16, Seq<u8>>>,
    others: Map<Seq<char>, Map<u16, Seq<u8>>>,
    c: ChunkModel,
    id: Seq<char>,
)
    ensures
        id != c.message_id ==> inbound::received_of(inbound::chunk_added(pending, c).0, id)
            == inbound::received_of(pending, id),
        inbound::received_of(pending, c.message_id) == inbound::received_of(others, c.message_id)
            ==> inbound::chunk_added(pending, c).1 == inbound::chunk_added(others, c).1,
{
}

/// A chunk that arrives again while its message is incomplete changes nothing.
pub proof fn law_chunk_again_changes_nothing(
    pending: Map<Seq<char>, Map<u16, Seq<u8>>>,
    c: ChunkModel,
)
    requires
        c.total > 1,
        c.index < c.total,
        c.checksum == buffer::crc32(c.payload),
        pending.contains_key(c.message_id),
        pending[c.message_id].contains_key(c.index),
        pending[c.message_id][c.index] == c.payload,
        pending[c.message_id].dom().len() != c.total,
    ensures
        inbound::chunk_added(pending, c) == (pending, DeliveryModel::Nothing),
{
    let m = pending[c.message_id];
    assert(m.insert(c.index, c.payload) =~= m);
    assert(pending.insert(c.message_id, m) =~= pending);
}

/// The chunk that carries one of the parts of a message.
pub open spec fn part_chunk(parts: Seq<Seq<u8>>, id: Seq<char>, i: int) -> ChunkModel {
    ChunkModel {
        message_id: id,
        index: i as u16,
        total: parts.len() as u16,
        checksum: buffer::crc32(parts[i]),
        payload: parts[i],
    }
}

/// The chunks that carry the parts of a message, in some order.
pub open spec fn parts_in_order(
    parts: Seq<Seq<u8>>,
    id: Seq<char>,
    order: Seq<int>,
) -> Seq<ChunkModel> {
    order.map_values(|i: int| part_chunk(parts, id, i))
}

/// The pieces that a message is cut into.
pub open spec fn pieces(data: Seq<u8>) -> Seq<Seq<u8>> {
    Seq::new(chunk::chunk_count(data.len()), |i: int| chunk::piece(data, i))
}

/// The chunk of a message at a position.
pub open spec fn message_chunk(data: Seq<u8>, id: Seq<char>, i: int) -> ChunkModel {
    part_chunk(pieces(data), id, i)
}

/// The chunks of a message in some order.
pub open spec fn chunks_in_order(data: Seq<u8>, id: Seq<char>, order: Seq<int>) -> Seq<ChunkModel> {
    parts_in_order(pieces(data), id, order)
}

/// Each position below `n` once.
pub open spec fn permutation(order: Seq<int>, n: nat) -> bool {
    &&& order.len() == n
    &&& order.no_duplicates()
    &&& forall|k: int| 0 <= k < order.len() ==> 0 <= #[trigger] order[k] < n
}

/// What chunks, one after the other, make of the pending messages and bring about.
pub open spec fn fed(
    pending: Map<Seq<char>, Map<u16, Seq<u8>>>,
    chunks: Seq<ChunkModel>,
) -> (Map<Seq<char>, Map<u16, Seq<u8>>>, Seq<DeliveryModel>)
    decreases chunks.len(),
{
    if chunks.len() == 0 {
        (pending, Seq::empty())
    } else {
        let (before, deliveries) = fed(pending, chunks.drop_last());
        let (after, delivery) = inbound::chunk_added(before, chunks.last());
        (after, deliveries.push(delivery))
    }
}

spec fn got(parts: Seq<Seq<u8>>, order: Seq<int>, k: nat) -> Map<u16, Seq<u8>>
    decreases k,
{
    if k == 0 {
        Map::empty()
    } else {
        got(parts, order, (k - 1) as nat).insert(
            order[k - 1] as u16,
            parts[order[k - 1]],
        )
    }
}

proof fn lemma_got(parts: Seq<Seq<u8>>, order: Seq<int>, n: nat, k: nat)
    requires
        permutation(order, n),
        n <= 0xffff,
        k <= n,
    ensures
        got(parts, order, k).dom().finite(),
        got(parts, order, k).dom().len() == k,
        forall|i: int|
            0 <= i < n ==> (#[trigger] got(parts, order, k).contains_key(i as u16) <==> exists|j: int|
                0 <= j < k && order[j] == i),
        forall|i: int|
            0 <= i < n && #[trigger] got(parts, order, k).contains_key(i as u16) ==> got(
                parts,
                order,
                k,
            )[i as u16] == parts[i],
    decreases k,
{
    if k > 0 {
        lemma_got(parts, order, n, (k - 1) as nat);
        let before = got(parts, order, (k - 1) as nat);
        let last = order[k - 1];
        assert(0 <= last < n);
        assert(!before.contains_key(last as u16)) by {
            if before.contains_key(last as u16) {
                let j = choose|j: int| 0 <= j < k - 1 && order[j] == last;
                assert(order[j] == order[k - 1]);
            }
        }
        let after = got(parts, order, k);
        assert(after.dom() =~= before.dom().insert(last as u16));
        assert forall|i: int| 0 <= i < n implies (#[trigger] after.contains_key(i as u16) <==> exists|
            j: int,
        |
            0 <= j < k && order[j] == i) by {
            if after.contains_key(i as u16) {
                if i == last {
                    assert(order[k - 1] == i);
                } else {
                    assert(before.contains_key(i as u16));
                }
            }
            if exists|j: int| 0 <= j < k && order[j] == i {
                let j = choose|j: int| 0 <= j < k && order[j] == i;
                if j < k - 1 {
                    assert(before.contains_key(i as u16));
                }
            }
        }
    }
}

proof fn lemma_permutation_covers(order: Seq<int>, n: nat, i: int)
    requires
        permutation(order, n),
        0 <= i < n,
    ensures
        exists|j: int| 0 <= j < n && order[j] == i,
{
    let range = vstd::set_lib::set_int_range(0, n as int);
    vstd::set_lib::lemma_int_range(0, n as int);
    order.unique_seq_to_set();
    assert(order.to_set().subset_of(range)) by {
        assert forall|x: int| order.to_set().contains(x) implies range.contains(x) by {
            let j = choose|j: int| 0 <= j < order.len() && order[j] == x;
            assert(0 <= order[j] < n);
        }
    }
    vstd::set_lib::lemma_subset_equality(order.to_set(), range);
    assert(range.contains(i));
    assert(order.to_set().contains(i));
    assert(order.contains(i));
    let j = order.index_of(i);
    assert(order[j] == i);
}

proof fn lemma_assembled_parts(received: Map<u16, Seq<u8>>, parts: Seq<Seq<u8>>, m: nat)
    requires
        m <= parts.len() <= 0xffff,
        forall|i: int| 0 <= i < parts.len() ==> (#[trigger] parts[i]).len() > 0,
        forall|i: int|
            0 <= i < m ==> #[trigger] received.contains_key(i as u16) && received[i as u16]
                == parts[i],
    ensures
        inbound::assembled(received, m) == Some(joined(parts.take(m as int))),
    decreases m,
{
    if m > 0 {
        lemma_assembled_parts(received, parts, (m - 1) as nat);
        assert(received.contains_key((m - 1) as u16));
        assert(parts.take(m as int).drop_last() =~= parts.take(m - 1));
    }
}

proof fn lemma_fed_part(
    pending: Map<Seq<char>, Map<u16, Seq<u8>>>,
    parts: Seq<Seq<u8>>,
    id: Seq<char>,
    order: Seq<int>,
    k: nat,
)
    requires
        1 < parts.len() <= 0xffff,
        permutation(order, parts.len()),
        !pending.contains_key(id),
        k < parts.len(),
    ensures
        fed(pending, parts_in_order(parts, id, order).take(k as int)) == (
            if k == 0 {
                pending
            } else {
                pending.insert(id, got(parts, order, k))
            },
            Seq::new(k, |i: int| DeliveryModel::Nothing),
        ),
    decreases k,
{
    let n = parts.len();
    let cs = parts_in_order(parts, id, order).take(k as int);
    if k == 0 {
        assert(fed(pending, cs).1 =~= Seq::new(k, |i: int| DeliveryModel::Nothing));
    } else {
        lemma_fed_part(pending, parts, id, order, (k - 1) as nat);
        assert(cs.drop_last() =~= parts_in_order(parts, id, order).take(k - 1));
        let before = fed(pending, cs.drop_last()).0;
        assert(0 <= order[k - 1] < n);
        lemma_got(parts, order, n, k);
        assert(inbound::received_of(before, id) =~= got(parts, order, (k - 1) as nat));
        assert(before.insert(id, got(parts, order, k)) =~= pending.insert(id, got(parts, order, k)));
        assert(fed(pending, cs).1 =~= Seq::new(k, |i: int| DeliveryModel::Nothing));
    }
}

/// The parts of a message, of whatever lengths but none of them empty, and in whatever order they
/// arrive, bring the message about with the last of them and leave nothing behind.
pub proof fn law_parts_in_any_order_make_the_message(
    pending: Map<Seq<char>, Map<u16, Seq<u8>>>,
    parts: Seq<Seq<u8>>,
    id: Seq<char>,
    order: Seq<int>,
)
    requires
        0 < parts.len() <= 0xffff,
        forall|i: int| 0 <= i < parts.len() ==> (#[trigger] parts[i]).len() > 0,
        permutation(order, parts.len()),
        !pending.contains_key(id),
    ensures
        fed(pending, parts_in_order(parts, id, order)) == (
            pending,
            Seq::new(
                order.len(),
                |k: int|
                    if k == order.len() - 1 {
                        DeliveryModel::Complete(joined(parts))
                    } else {
                        DeliveryModel::Nothing
                    },
            ),
        ),
{
    let n = parts.len();
    let cs = parts_in_order(parts, id, order);
    let goal = Seq::new(
        order.len(),
        |k: int|
            if k == order.len() - 1 {
                DeliveryModel::Complete(joined(parts))
            } else {
                DeliveryModel::Nothing
            },
    );
    assert(0 <= order[n - 1] < n);
    if n == 1 {
        assert(parts.drop_last() =~= Seq::empty());
        assert(joined(parts.drop_last()) + parts[0] =~= parts[0]);
        assert(cs.drop_last() =~= Seq::empty());
        assert(fed(pending, cs.drop_last()) == (pending, Seq::<DeliveryModel>::empty()));
        assert(fed(pending, cs).1 =~= goal);
    } else {
        lemma_fed_part(pending, parts, id, order, (n - 1) as nat);
        assert(cs.drop_last() =~= cs.take(n - 1));
        let before = fed(pending, cs.drop_last()).0;
        lemma_got(parts, order, n, n);
        assert(inbound::received_of(before, id) =~= got(parts, order, (n - 1) as nat));
        assert forall|i: int|
            0 <= i < n implies #[trigger] got(parts, order, n).contains_key(i as u16) && got(
            parts,
            order,
            n,
        )[i as u16] == parts[i] by {
            lemma_permutation_covers(order, n, i);
            let j = choose|j: int| 0 <= j < n && order[j] == i;
            assert(0 <= j < n && order[j] == i);
            assert(got(parts, order, n).contains_key(i as u16));
        }
        lemma_assembled_parts(got(parts, order, n), parts, n);
        assert(parts.take(n as int) =~= parts);
        assert(before.remove(id) =~= pending);
        assert(fed(pending, cs).1 =~= goal);
    }
}

/// The pieces of a message, end to end, are the message.
proof fn lemma_pieces_join(data: Seq<u8>, m: nat)
    requires
        m <= chunk::chunk_count(data.len()),
    ensures
        joined(pieces(data).take(m as int)) == data.take(
            if m * chunk::CHUNK_SIZE < data.len() {
                m * chunk::CHUNK_SIZE
            } else {
                data.len() as int
            },
        ),
    decreases m,
{
    if m == 0 {
        assert(data.take(0) =~= Seq::empty());
    } else {
        lemma_pieces_join(data, (m - 1) as nat);
        assert(pieces(data).take(m as int).drop_last() =~= pieces(data).take(m - 1));
        let to = if m * chunk::CHUNK_SIZE < data.len() {
            m * chunk::CHUNK_SIZE
        } else {
            data.len() as int
        };
        assert(data.take((m - 1) * chunk::CHUNK_SIZE) + chunk::piece(data, m - 1) =~= data.take(to));
    }
}

/// The chunks of a message, in whatever order they arrive, bring the message about with the last
/// of them and leave nothing behind.
pub proof fn law_chunks_in_any_order_make_the_message(
    pending: Map<Seq<char>, Map<u16, Seq<u8>>>,
    data: Seq<u8>,
    id: Seq<char>,
    order: Seq<int>,
)
    requires
        0 < data.len(),
        chunk::chunk_count(data.len()) <= 0xffff,
        permutation(order, chunk::chunk_count(data.len())),
        !pending.contains_key(id),
    ensures
        fed(pending, chunks_in_order(data, id, order)) == (
            pending,
            Seq::new(
                order.len(),
                |k: int|
                    if k == order.len() - 1 {
                        DeliveryModel::Complete(data)
                    } else {
                        DeliveryModel::Nothing
                    },
            ),
        ),
{
    let parts = pieces(data);
    assert forall|i: int| 0 <= i < parts.len() implies (#[trigger] parts[i]).len() > 0 by {
        lemma_count_bounds(data.len(), i);
    }
    lemma_pieces_join(data, parts.len());
    assert(parts.take(parts.len() as int) =~= parts);
    assert(data.take(data.len() as int) =~= data);
    law_parts_in_any_order_make_the_message(pending, parts, id, order);
}

/// A stream of envelopes, the last of which may be incomplete.
pub open spec fn envelope_stream(data: Seq<u8>) -> bool
    decreases data.len(),
{
    data.len() == 0 || match chunk::parsed(data) {
        ParseModel::NeedMore => true,
        ParseModel::Invalid => false,
        ParseModel::Complete { chunk, consumed } => envelope_stream(data.skip(consumed as int)),
    }
}

/// The first byte of what is not refused is the length of an id.
proof fn lemma_first_byte(data: Seq<u8>)
    requires
        data.len() > 0,
        chunk::parsed(data) != ParseModel::Invalid,
    ensures
        data[0] == 0x24,
{
}

/// Cutting a stream of envelopes anywhere makes no difference: what arrives from the two parts,
/// one after the other, is what arrives from the whole.
pub proof fn law_cutting_a_stream_makes_no_difference(
    a: Seq<u8>,
    b: Seq<u8>,
    pending: Map<Seq<char>, Map<u16, Seq<u8>>>,
)
    requires
        envelope_stream(a),
    ensures
        ({
            let first = inbound::drained(a, pending);
            let second = inbound::drained(first.rest + b, first.pending);
            inbound::drained(a + b, pending) == (Drained {
                arrived: inbound::followed(first.arrived, second.arrived),
                ..second
            })
        }),
        inbound::drained(a, pending).arrived.undecided is None,
    decreases a.len(),
{
    let first = inbound::drained(a, pending);
    let second = inbound::drained(first.rest + b, first.pending);
    if a.len() == 0 {
        assert(a + b =~= first.rest + b);
        assert(inbound::followed(first.arrived, second.arrived) =~= second.arrived);
    } else {
        lemma_first_byte(a);
        match chunk::parsed(a) {
            ParseModel::Complete { chunk, consumed } => {
                law_more_bytes_keep_the_reading(a, b);
                let (next, delivery) = inbound::chunk_added(pending, chunk);
                let rest = a.skip(consumed as int);
                law_cutting_a_stream_makes_no_difference(rest, b, next);
                assert((a + b).skip(consumed as int) =~= rest + b);
                let tail = inbound::drained(rest, next).arrived;
                assert(inbound::followed(
                    inbound::delivery_first(chunk, delivery, tail),
                    second.arrived,
                ) =~= inbound::delivery_first(
                    chunk,
                    delivery,
                    inbound::followed(tail, second.arrived),
                ));
            },
            _ => {
                assert(inbound::followed(first.arrived, second.arrived) =~= second.arrived);
            },
        }
    }
}

proof fn lemma_stream_prefix(a: Seq<u8>, b: Seq<u8>)
    requires
        envelope_stream(a + b),
    ensures
        envelope_stream(a),
    decreases a.len(),
{
    if a.len() > 0 && chunk::parsed(a) != ParseModel::NeedMore {
        law_more_bytes_keep_the_reading(a, b);
        match chunk::parsed(a) {
            ParseModel::Complete { chunk, consumed } => {
                assert((a + b).skip(consumed as int) =~= a.skip(consumed as int) + b);
                lemma_stream_prefix(a.skip(consumed as int), b);
            },
            _ => {},
        }
    }
}

/// Runs of bytes, one after the other.
pub open spec fn joined(parts: Seq<Seq<u8>>) -> Seq<u8>
    decreases parts.len(),
{
    if parts.len() == 0 {
        Seq::empty()
    } else {
        joined(parts.drop_last()) + parts.last()
    }
}

/// The state after parts of a stream came in for a session, and all that arrived.
pub open spec fn after_parts(
    state: InboundModel,
    session: u8,
    parts: Seq<Seq<u8>>,
) -> (InboundModel, ArrivedModel)
    decreases parts.len(),
{
    if parts.len() == 0 {
        (state, inbound::nothing_arrived())
    } else {
        let (before, arrived) = after_parts(state, session, parts.drop_last());
        (
            before.received(session, parts.last()),
            inbound::followed(arrived, before.arrives(session, parts.last())),
        )
    }
}

/// No part makes the session's bytes pass the cap.
pub open spec fn parts_fit(state: InboundModel, session: u8, parts: Seq<Seq<u8>>) -> bool {
    forall|k: int|
        0 <= k < parts.len() ==> after_parts(state, session, #[trigger] parts.take(k)).0.buffered(
            session,
        ).len() + parts[k].len() <= inbound::MAX_INBOUND_BUFFER
}

/// A stream of envelopes for a session with nothing kept gives the same however it is cut into
/// parts, as long as no part makes the kept bytes pass the cap.
pub proof fn law_stream_in_parts_is_the_stream(
    state: InboundModel,
    session: u8,
    parts: Seq<Seq<u8>>,
)
    requires
        state.buffered(session).len() == 0,
        envelope_stream(joined(parts)),
        parts_fit(state, session, parts),
    ensures
        after_parts(state, session, parts).0.buffered(session) == inbound::drained(
            joined(parts),
            state.pending,
        ).rest,
        after_parts(state, session, parts).0.pending == inbound::drained(
            joined(parts),
            state.pending,
        ).pending,
        after_parts(state, session, parts).1 == inbound::drained(
            joined(parts),
            state.pending,
        ).arrived,
    decreases parts.len(),
{
    if parts.len() == 0 {
        assert(state.buffered(session) =~= Seq::empty());
    } else {
        let early = parts.drop_last();
        lemma_stream_prefix(joined(early), parts.last());
        assert forall|k: int| 0 <= k < early.len() implies after_parts(
            state,
            session,
            #[trigger] early.take(k),
        ).0.buffered(session).len() + early[k].len() <= inbound::MAX_INBOUND_BUFFER by {
            assert(early.take(k) =~= parts.take(k));
        }
        law_stream_in_parts_is_the_stream(state, session, early);
        law_cutting_a_stream_makes_no_difference(joined(early), parts.last(), state.pending);
        assert(parts.take(parts.len() - 1) =~= early);
    }
}

proof fn lemma_count_bounds(len: nat, i: int)
    requires
        0 <= i < chunk::chunk_count(len),
    ensures
        i * chunk::CHUNK_SIZE < len,
{
}

/// Draining the envelopes of a message from position `i` on is feeding its chunks.
proof fn lemma_drain_message(
    data: Seq<u8>,
    id: Seq<char>,
    pending: Map<Seq<char>, Map<u16, Seq<u8>>>,
    n: nat,
)
    requires
        chunk::envelope_id(id),
        n <= chunk::chunk_count(data.len()) <= 1000,
    ensures
        ({
            let stream = joined(chunk::envelopes(data, id).take(n as int));
            let order = Seq::new(n, |k: int| k);
            let (after, deliveries) = fed(pending, chunks_in_order(data, id, order));
            &&& envelope_stream(stream)
            &&& inbound::drained(stream, pending).rest == Seq::<u8>::empty()
            &&& inbound::drained(stream, pending).pending == after
            &&& inbound::drained(stream, pending).arrived == arrived_of(
                chunks_in_order(data, id, order),
                deliveries,
            )
        }),
    decreases n,
{
    let es = chunk::envelopes(data, id);
    let stream = joined(es.take(n as int));
    let order = Seq::new(n, |k: int| k);
    let cs = chunks_in_order(data, id, order);
    if n == 0 {
        assert(inbound::drained(stream, pending).arrived =~= arrived_of(cs, fed(pending, cs).1));
    } else {
        lemma_drain_message(data, id, pending, (n - 1) as nat);
        let early = joined(es.take(n - 1));
        let last = es[n - 1];
        assert(es.take(n as int).drop_last() =~= es.take(n - 1));
        assert(stream == early + last);
        assert(cs.drop_last() =~= chunks_in_order(data, id, Seq::new((n - 1) as nat, |k: int| k)));
        lemma_count_bounds(data.len(), n - 1);
        let c = message_chunk(data, id, n - 1);
        assert(cs.last() == c);
        law_envelope_reads_back(id, c.index, c.total, c.payload, Seq::empty());
        assert(last + Seq::<u8>::empty() =~= last);
        law_cutting_a_stream_makes_no_difference(early, last, pending);
        let before = inbound::drained(early, pending);
        assert(before.rest + last =~= last);
        assert(last[0] == 0x24) by {
            lemma_envelope_layout(id, c.index, c.total, c.payload, Seq::empty());
        }
        assert(last.skip(last.len() as int) =~= Seq::<u8>::empty());
        let (next, delivery) = inbound::chunk_added(before.pending, c);
        let nothing = inbound::drained(Seq::<u8>::empty(), next);
        assert(inbound::drained(last, before.pending).arrived == inbound::delivery_first(
            c,
            delivery,
            nothing.arrived,
        ));
        let deliveries = fed(pending, cs).1;
        assert(deliveries.drop_last() =~= fed(pending, cs.drop_last()).1);
        assert(deliveries.last() == delivery);
        assert(inbound::drained(stream, pending).arrived =~= arrived_of(cs, deliveries));
        assert(envelope_stream(Seq::<u8>::empty()));
        assert(envelope_stream(last));
        lemma_stream_append(early, last, pending);
    }
}

/// What deliveries for chunks amount to.
spec fn arrived_of(chunks: Seq<ChunkModel>, deliveries: Seq<DeliveryModel>) -> ArrivedModel
    decreases deliveries.len(),
{
    if deliveries.len() == 0 {
        inbound::nothing_arrived()
    } else {
        inbound::followed(
            arrived_of(chunks.drop_last(), deliveries.drop_last()),
            inbound::delivery_first(chunks.last(), deliveries.last(), inbound::nothing_arrived()),
        )
    }
}

proof fn lemma_stream_append(
    a: Seq<u8>,
    b: Seq<u8>,
    pending: Map<Seq<char>, Map<u16, Seq<u8>>>,
)
    requires
        envelope_stream(a),
        envelope_stream(b),
        inbound::drained(a, pending).rest.len() == 0,
    ensures
        envelope_stream(a + b),
    decreases a.len(),
{
    if a.len() == 0 {
        assert(a + b =~= b);
    } else {
        lemma_first_byte(a);
        match chunk::parsed(a) {
            ParseModel::Complete { chunk, consumed } => {
                law_more_bytes_keep_the_reading(a, b);
                assert((a + b).skip(consumed as int) =~= a.skip(consumed as int) + b);
                lemma_stream_append(
                    a.skip(consumed as int),
                    b,
                    inbound::chunk_added(pending, chunk).0,
                );
            },
            _ => {},
        }
    }
}

proof fn lemma_arrived_message(chunks: Seq<ChunkModel>, deliveries: Seq<DeliveryModel>, data: Seq<u8>)
    requires
        forall|k: int|
            0 <= k < deliveries.len() - 1 ==> #[trigger] deliveries[k] == DeliveryModel::Nothing,
        deliveries.len() > 0 ==> deliveries.last() == DeliveryModel::Complete(data)
            || deliveries.last() == DeliveryModel::Nothing,
    ensures
        deliveries.len() > 0 && deliveries.last() == DeliveryModel::Complete(data) ==> arrived_of(
            chunks,
            deliveries,
        ) == (ArrivedModel { completed: seq![data], ..inbound::nothing_arrived() }),
        !(deliveries.len() > 0 && deliveries.last() == DeliveryModel::Complete(data))
            ==> arrived_of(chunks, deliveries) == inbound::nothing_arrived(),
    decreases deliveries.len(),
{
    if deliveries.len() > 0 {
        let early = deliveries.drop_last();
        if early.len() > 0 {
            assert(early.last() == deliveries[deliveries.len() - 2]);
        }
        lemma_arrived_message(chunks.drop_last(), early, data);
        let a = arrived_of(chunks, deliveries);
        if deliveries.last() == DeliveryModel::Complete(data) {
            assert(a =~= ArrivedModel { completed: seq![data], ..inbound::nothing_arrived() });
        } else {
            assert(a =~= inbound::nothing_arrived());
        }
    }
}

/// A message that is cut into envelopes, sent as one stream and received in whatever parts comes
/// out once, whole and unchanged, and leaves nothing behind.
pub proof fn law_message_crosses_the_link(
    state: InboundModel,
    session: u8,
    data: Seq<u8>,
    id: Seq<char>,
    parts: Seq<Seq<u8>>,
)
    requires
        chunk::envelope_id(id),
        0 < data.len(),
        chunk::chunk_count(data.len()) <= 1000,
        state.buffered(session).len() == 0,
        !state.pending.contains_key(id),
        joined(parts) == joined(chunk::envelopes(data, id)),
        parts_fit(state, session, parts),
    ensures
        after_parts(state, session, parts).1 == (ArrivedModel {
            completed: seq![data],
            ..inbound::nothing_arrived()
        }),
        after_parts(state, session, parts).0.buffered(session) == Seq::<u8>::empty(),
        after_parts(state, session, parts).0.pending == state.pending,
{
    let n = chunk::chunk_count(data.len());
    let order = Seq::new(n, |k: int| k);
    let es = chunk::envelopes(data, id);
    assert(es.take(n as int) =~= es);
    lemma_drain_message(data, id, state.pending, n);
    law_chunks_in_any_order_make_the_message(state.pending, data, id, order);
    let cs = chunks_in_order(data, id, order);
    let deliveries = fed(state.pending, cs).1;
    lemma_arrived_message(cs, deliveries, data);
    law_stream_in_parts_is_the_stream(state, session, parts);
}

proof fn lemma_envelopes_fit(
    state: InboundModel,
    session: u8,
    data: Seq<u8>,
    id: Seq<char>,
    n: nat,
)
    requires
        chunk::envelope_id(id),
        n <= chunk::chunk_count(data.len()) <= 1000,
        state.buffered(session).len() == 0,
    ensures
        parts_fit(state, session, chunk::envelopes(data, id).take(n as int)),
    decreases n,
{
    if n > 0 {
        let es = chunk::envelopes(data, id);
        let parts = es.take(n as int);
        let early = es.take(n - 1);
        lemma_envelopes_fit(state, session, data, id, (n - 1) as nat);
        lemma_drain_message(data, id, state.pending, (n - 1) as nat);
        law_stream_in_parts_is_the_stream(state, session, early);
        chunk::lemma_envelope_len(data, id, n - 1);
        assert forall|k: int| 0 <= k < n implies after_parts(
            state,
            session,
            #[trigger] parts.take(k),
        ).0.buffered(session).len() + parts[k].len() <= inbound::MAX_INBOUND_BUFFER by {
            if k < n - 1 {
                assert(parts.take(k) =~= early.take(k));
                assert(parts[k] == early[k]);
            } else {
                assert(parts.take(k) =~= early);
            }
        }
    }
}

/// A message whose envelopes come one by one comes out once, whole and unchanged, and leaves
/// nothing behind.
pub proof fn law_envelopes_one_by_one_make_the_message(
    state: InboundModel,
    session: u8,
    data: Seq<u8>,
    id: Seq<char>,
)
    requires
        chunk::envelope_id(id),
        0 < data.len(),
        chunk::chunk_count(data.len()) <= 1000,
        state.buffered(session).len() == 0,
        !state.pending.contains_key(id),
    ensures
        after_parts(state, session, chunk::envelopes(data, id)).1 == (ArrivedModel {
            completed: seq![data],
            ..inbound::nothing_arrived()
        }),
        after_parts(state, session, chunk::envelopes(data, id)).0.buffered(session) == Seq::<
            u8,
        >::empty(),
        after_parts(state, session, chunk::envelopes(data, id)).0.pending == state.pending,
{
    let es = chunk::envelopes(data, id);
    lemma_envelopes_fit(state, session, data, id, chunk::chunk_count(data.len()));
    assert(es.take(es.len() as int) =~= es);
    law_message_crosses_the_link(state, session, data, id, es);
}

} // verus!
