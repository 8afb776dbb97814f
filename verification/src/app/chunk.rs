//! Chunk envelopes: how a message is cut for the link to the phone, and read back.
//!
//! An envelope is one byte with the length of the message id, the id, the index of the chunk and
//! the number of chunks in two bytes each, the checksum of the payload in four, the length of the
//! payload in two, and the payload. Numbers have their high byte first.
use crate::buffer;
use crate::error::NocturnedError;
use crate::text;
use bytes::Bytes;
use vstd::prelude::*;
use vstd::slice::slice_subrange;
use vstd::utf8::*;

verus! {

/// The most payload bytes that one envelope carries.
pub const CHUNK_SIZE: usize = 2000;

/// The bytes of an envelope before its payload.
pub const HEADER_LEN: usize = 47;

/// A chunk of a message as it comes out of an envelope.
pub struct Chunk {
    pub message_id: String,
    pub index: u16,
    pub total: u16,
    pub checksum: u32,
    pub payload: Bytes,
}

/// What a chunk says, apart from how it is stored.
pub struct ChunkModel {
    pub message_id: Seq<char>,
    pub index: u16,
    pub total: u16,
    pub checksum: u32,
    pub payload: Seq<u8>,
}

impl View for Chunk {
    type V = ChunkModel;

    open spec fn view(&self) -> ChunkModel {
        ChunkModel {
            message_id: self.message_id@,
            index: self.index,
            total: self.total,
            checksum: self.checksum,
            payload: buffer::payload(self.payload),
        }
    }
}

/// What the beginning of a stream of bytes holds: an envelope and its length, too little to tell,
/// or something else.
pub enum ChunkEnvelopeParse {
    Complete { chunk: Chunk, consumed: usize },
    NeedMore,
    Invalid,
}

/// What a parse says, apart from how it is stored.
pub enum ParseModel {
    Complete { chunk: ChunkModel, consumed: nat },
    NeedMore,
    Invalid,
}

impl View for ChunkEnvelopeParse {
    type V = ParseModel;

    open spec fn view(&self) -> ParseModel {
        match self {
            ChunkEnvelopeParse::Complete { chunk, consumed } => ParseModel::Complete {
                chunk: chunk@,
                consumed: *consumed as nat,
            },
            ChunkEnvelopeParse::NeedMore => ParseModel::NeedMore,
            ChunkEnvelopeParse::Invalid => ParseModel::Invalid,
        }
    }
}

/// The four hyphens of an identifier stand where they should.
pub open spec fn hyphenated(id: Seq<char>) -> bool {
    &&& id.len() > 23
    &&& id[8] == '-'
    &&& id[13] == '-'
    &&& id[18] == '-'
    &&& id[23] == '-'
}

/// The id bytes of an envelope are text with hyphens in place.
pub open spec fn id_readable(data: Seq<u8>) -> bool {
    valid_utf8(data.subrange(1, 37)) && hyphenated(decode_utf8(data.subrange(1, 37)))
}

/// The chunk that an envelope of whole length holds.
pub open spec fn chunk_of(data: Seq<u8>) -> ChunkModel {
    ChunkModel {
        message_id: decode_utf8(data.subrange(1, 37)),
        index: buffer::from_big_endian_16(data.subrange(37, 39)),
        total: buffer::from_big_endian_16(data.subrange(39, 41)),
        checksum: buffer::from_big_endian_32(data.subrange(41, 45)),
        payload: data.subrange(
            HEADER_LEN as int,
            HEADER_LEN + buffer::from_big_endian_16(data.subrange(45, 47)),
        ),
    }
}

/// What the beginning of a stream holds.
pub open spec fn parsed(data: Seq<u8>) -> ParseModel {
    if data.len() == 0 {
        ParseModel::NeedMore
    } else if data[0] != 36 {
        ParseModel::Invalid
    } else if data.len() < HEADER_LEN {
        ParseModel::NeedMore
    } else {
        let index = buffer::from_big_endian_16(data.subrange(37, 39));
        let total = buffer::from_big_endian_16(data.subrange(39, 41));
        let needed = (HEADER_LEN + buffer::from_big_endian_16(data.subrange(45, 47))) as nat;
        if !id_readable(data) || total == 0 || index >= total || total > 1000 {
            ParseModel::Invalid
        } else if data.len() < needed {
            ParseModel::NeedMore
        } else {
            ParseModel::Complete { chunk: chunk_of(data), consumed: needed }
        }
    }
}

fn read_u16(data: &[u8], at: usize) -> (r: u16)
    requires
        at + 2 <= data@.len(),
    ensures
        r == buffer::from_big_endian_16(data@.subrange(at as int, at + 2)),
{
    data[at] as u16 * 0x100 + data[at + 1] as u16
}

fn read_u32(data: &[u8], at: usize) -> (r: u32)
    requires
        at + 4 <= data@.len(),
    ensures
        r == buffer::from_big_endian_32(data@.subrange(at as int, at + 4)),
{
    data[at] as u32 * 0x100_0000 + data[at + 1] as u32 * 0x1_0000 + data[at + 2] as u32 * 0x100
        + data[at + 3] as u32
}

/// Reads the envelope at the beginning of a stream.
pub fn parse_one_chunk_envelope(data: &[u8]) -> (r: ChunkEnvelopeParse)
    ensures
        r@ == parsed(data@),
{
    if data.len() == 0 {
        return ChunkEnvelopeParse::NeedMore;
    }
    if data[0] != 36 {
        return ChunkEnvelopeParse::Invalid;
    }
    if data.len() < HEADER_LEN {
        return ChunkEnvelopeParse::NeedMore;
    }
    let message_id = match text::utf8_text(slice_subrange(data, 1, 37)) {
        Some(s) => s,
        None => return ChunkEnvelopeParse::Invalid,
    };
    let chars = text::chars_of(message_id.as_str());
    if chars.len() <= 23 || chars[8] != '-' || chars[13] != '-' || chars[18] != '-' || chars[23]
        != '-' {
        return ChunkEnvelopeParse::Invalid;
    }
    let index: u16 = read_u16(data, 37);
    let total: u16 = read_u16(data, 39);
    let checksum: u32 = read_u32(data, 41);
    let payload_len: usize = read_u16(data, 45) as usize;
    if total == 0 || index >= total || total > 1000 {
        return ChunkEnvelopeParse::Invalid;
    }
    let consumed: usize = HEADER_LEN + payload_len;
    if data.len() < consumed {
        return ChunkEnvelopeParse::NeedMore;
    }
    let payload = buffer::bytes_copy(slice_subrange(data, HEADER_LEN, consumed));
    ChunkEnvelopeParse::Complete {
        chunk: Chunk { message_id, index, total, checksum, payload },
        consumed,
    }
}

/// The bytes of an envelope.
pub open spec fn envelope(id: Seq<char>, index: u16, total: u16, data: Seq<u8>) -> Seq<u8> {
    seq![encode_utf8(id).len() as u8] + encode_utf8(id) + buffer::big_endian_16(index) + buffer::big_endian_16(
        total,
    ) + buffer::big_endian_32(buffer::crc32(data)) + buffer::big_endian_16(data.len() as u16) + data
}

/// How many chunks a message of some length is cut into.
pub open spec fn chunk_count(len: nat) -> nat {
    (len + CHUNK_SIZE - 1) as nat / CHUNK_SIZE as nat
}

/// The bytes of a message that its chunk `i` carries.
pub open spec fn piece(data: Seq<u8>, i: int) -> Seq<u8> {
    data.subrange(
        i * CHUNK_SIZE,
        if (i + 1) * CHUNK_SIZE < data.len() {
            (i + 1) * CHUNK_SIZE
        } else {
            data.len() as int
        },
    )
}

/// The envelopes of a message under an id: one for each piece, and none for an empty message.
pub open spec fn envelopes(data: Seq<u8>, id: Seq<char>) -> Seq<Seq<u8>> {
    Seq::new(
        chunk_count(data.len()),
        |i: int| envelope(id, i as u16, chunk_count(data.len()) as u16, piece(data, i)),
    )
}

/// The bytes of each run.
pub open spec fn payloads(runs: Seq<Bytes>) -> Seq<Seq<u8>> {
    runs.map_values(|b: Bytes| buffer::payload(b))
}

/// Whether a character is a hexadecimal digit with a small letter.
pub open spec fn lower_hex(c: char) -> bool {
    '0' <= c <= '9' || 'a' <= c <= 'f'
}

/// Whether a text is an identifier of 32 hexadecimal digits in five groups.
pub open spec fn uuid_text(s: Seq<char>) -> bool {
    &&& s.len() == 36
    &&& forall|i: int|
        0 <= i < 36 ==> if i == 8 || i == 13 || i == 18 || i == 23 {
            #[trigger] s[i] == '-'
        } else {
            lower_hex(s[i])
        }
}

/// `uuid::Uuid::new_v4` makes a random identifier, and its `to_string` writes it in small
/// hexadecimal digits with hyphens. Which identifier comes out is left open.
#[verifier::external_body]
pub(crate) fn new_uuid() -> (r: String)
    ensures
        uuid_text(r@),
{
    uuid::Uuid::new_v4().to_string()
}

/// Whether a text can be the id of a message in an envelope.
pub open spec fn envelope_id(id: Seq<char>) -> bool {
    is_ascii_chars(id) && id.len() == 36 && hyphenated(id)
}

/// Cuts a message into envelopes under a given id.
pub fn chunks_with_id(data: &[u8], message_id: &str) -> (r: Vec<Bytes>)
    requires
        envelope_id(message_id@),
    ensures
        payloads(r@) == envelopes(data@, message_id@),
{
    let full: usize = data.len() / CHUNK_SIZE;
    let count: usize = if data.len() % CHUNK_SIZE == 0 {
        full
    } else {
        full + 1
    };
    assert(count == chunk_count(data@.len()));
    let id_bytes = message_id.as_bytes();
    proof {
        is_ascii_chars_encode_utf8(message_id@);
    }
    let mut out: Vec<Bytes> = Vec::new();
    let mut i: usize = 0;
    while i < count
        invariant
            id_bytes@ == encode_utf8(message_id@),
            id_bytes@.len() == 36,
            count == chunk_count(data@.len()),
            data@.len() == data.len(),
            i <= count,
            out@.len() == i,
            forall|k: int| 0 <= k < i ==> buffer::payload(#[trigger] out@[k]) == envelopes(data@, message_id@)[k],
        decreases count - i,
    {
        assert(i * CHUNK_SIZE < data@.len());
        let from: usize = i * CHUNK_SIZE;
        let to: usize = if data.len() - from > CHUNK_SIZE {
            from + CHUNK_SIZE
        } else {
            data.len()
        };
        let chunk = slice_subrange(data, from, to);
        assert(chunk@ =~= piece(data@, i as int));
        let checksum: u32 = buffer::crc32_of(chunk);
        let mut envelope_bytes = buffer::buffer_with_capacity(HEADER_LEN + chunk.len());
        buffer::buffer_put_u8(&mut envelope_bytes, id_bytes.len() as u8);
        buffer::buffer_put_slice(&mut envelope_bytes, id_bytes);
        buffer::buffer_put_u16(&mut envelope_bytes, i as u16);
        buffer::buffer_put_u16(&mut envelope_bytes, count as u16);
        buffer::buffer_put_u32(&mut envelope_bytes, checksum);
        buffer::buffer_put_u16(&mut envelope_bytes, chunk.len() as u16);
        buffer::buffer_put_slice(&mut envelope_bytes, chunk);
        assert(buffer::held(envelope_bytes) =~= envelopes(data@, message_id@)[i as int]);
        out.push(buffer::buffer_freeze(envelope_bytes));
        i += 1;
    }
    assert(payloads(out@) =~= envelopes(data@, message_id@));
    out
}

/// An envelope is no longer than its header and a whole chunk.
pub proof fn lemma_envelope_len(data: Seq<u8>, id: Seq<char>, i: int)
    requires
        envelope_id(id),
        0 <= i < envelopes(data, id).len(),
    ensures
        envelopes(data, id)[i].len() <= HEADER_LEN + CHUNK_SIZE,
{
    is_ascii_chars_encode_utf8(id);
    assert(i * CHUNK_SIZE < data.len());
    assert(piece(data, i).len() <= CHUNK_SIZE);
}

/// An identifier in capitals can be the id of a message in an envelope.
pub proof fn lemma_uuid_is_envelope_id(id: Seq<char>)
    requires
        uuid_text(id),
    ensures
        envelope_id(text::uppercase(id)),
{
    let up = text::uppercase(id);
    assert forall|i: int| 0 <= i < up.len() implies (#[trigger] up[i]) as nat <= 127 by {
        assert(id[i] == '-' || lower_hex(id[i]));
    }
    assert(id[8] == '-' && id[13] == '-' && id[18] == '-' && id[23] == '-');
    is_ascii_chars_nat_bound(up);
}

/// Whether a text is an id that was made for a message: an identifier in capitals.
pub open spec fn own_id(id: Seq<char>) -> bool {
    exists|u: Seq<char>| uuid_text(u) && id == #[trigger] text::uppercase(u)
}

/// An id that was made for a message can be the id of a message in an envelope.
pub proof fn lemma_own_id(id: Seq<char>)
    requires
        own_id(id),
    ensures
        envelope_id(id),
{
    lemma_uuid_is_envelope_id(choose|u: Seq<char>| uuid_text(u) && id == #[trigger] text::uppercase(u));
}

/// Cuts a message into envelopes under an id of its own, which they share.
pub fn create_chunks(data: &[u8]) -> (r: Result<Vec<Bytes>, NocturnedError>)
    ensures
        r is Ok,
        exists|id: Seq<char>|
            own_id(id) && payloads(r->Ok_0@) == #[trigger] envelopes(data@, id),
{
    let id = new_uuid();
    let message_id = text::to_uppercase(id.as_str());
    proof {
        lemma_uuid_is_envelope_id(id@);
    }
    assert(own_id(message_id@));
    Ok(chunks_with_id(data, message_id.as_str()))
}

} // verus!
