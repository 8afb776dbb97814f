//! The connection to a phone over a serial port: bytes go as lines of base64 text.
use crate::address::DeviceAddress;
use crate::app::chunk;
use crate::app::inbound;
use crate::app::inbound::{ArrivedModel, InboundModel};
use crate::app::link_laws;
use crate::app::msgpack::{HandlerModel, MsgPackMessage, MsgPackProtocolHandler};
use crate::app::value;
use crate::app::{AppMessage, AppMessageModel};
use crate::audio::AudioEvent;
use crate::buffer;
use crate::iap2_wrapper;
use crate::iap2_wrapper::DAEMON_READY_INTERVAL;
use crate::json::{Json, JsonModel};
use crate::text;
use bytes::BytesMut;
use vstd::prelude::*;
use vstd::slice::slice_subrange;
use vstd::utf8::*;

verus! {

broadcast use crate::json::lemma_json_view;

/// How many bytes stand before the first line break: all of them, where there is none.
pub open spec fn line_len(data: Seq<u8>) -> nat
    decreases data.len(),
{
    if data.len() == 0 || data[0] == 10 {
        0
    } else {
        1 + line_len(data.skip(1))
    }
}

/// What comes of a stream of lines: the bytes that its whole lines stand for, and what is not a
/// whole line yet.
#[verifier::ext_equal]
pub struct LinesRead {
    pub messages: Seq<Seq<u8>>,
    pub rest: Seq<u8>,
}

/// Reads a stream of lines. A line that stands for no bytes is passed over.
pub open spec fn lines_read(data: Seq<u8>) -> LinesRead
    decreases data.len(),
{
    let n = line_len(data);
    if n < data.len() {
        let later = lines_read(data.skip(n as int + 1));
        match buffer::base64_decoded(data.take(n as int)) {
            Ok(message) => LinesRead { messages: seq![message] + later.messages, rest: later.rest },
            Err(_) => later,
        }
    } else {
        LinesRead { messages: Seq::empty(), rest: data }
    }
}

/// How many bytes of a stream of lines stand up to the end of the first line that stands for bytes,
/// where there is one.
pub open spec fn first_message_end(data: Seq<u8>) -> nat
    decreases data.len(),
{
    let n = line_len(data);
    if n < data.len() {
        match buffer::base64_decoded(data.take(n as int)) {
            Ok(message) => n + 1,
            Err(_) => n + 1 + first_message_end(data.skip(n as int + 1)),
        }
    } else {
        0
    }
}

/// Whether a line carries some bytes: it ends at its only line break, and stands for them.
pub open spec fn carries(line: Seq<u8>, data: Seq<u8>) -> bool {
    &&& line.len() > 0
    &&& line.last() == 10
    &&& forall|i: int| 0 <= i < line.len() - 1 ==> line[i] != 10
    &&& buffer::base64_decoded(line.drop_last()) == Ok::<Seq<u8>, Seq<char>>(data)
}

/// Writes bytes as a line.
pub fn encode_line(data: &[u8]) -> (r: String)
    requires
        buffer::base64_fits(data@.len()),
    ensures
        r@ == buffer::base64_text(data@).push('\n'),
        carries(encode_utf8(r@), data@),
{
    let mut line = buffer::base64_encode(data);
    let ghost before = line@;
    line.push('\n');
    proof {
        assert forall|i: int| 0 <= i < line@.len() implies (#[trigger] line@[i]) as nat <= 127 by {
            is_ascii_chars_nat_bound(before);
        }
        is_ascii_chars_nat_bound(line@);
        is_ascii_chars_encode_utf8(before);
        is_ascii_chars_encode_utf8(line@);
        let bytes = encode_utf8(line@);
        assert(bytes.drop_last() =~= encode_utf8(before)) by {
            assert forall|i: int| 0 <= i < before.len() implies bytes[i] == encode_utf8(
                before,
            )[i] by {
                assert(line@[i] == before[i]);
            }
        }
        assert(bytes.last() == line@[before.len() as int] as u8);
        assert forall|i: int| 0 <= i < bytes.len() - 1 implies bytes[i] != 10 by {
            assert(line@[i] as u8 == bytes[i]);
            assert(before[i] != '\n');
        }
    }
    line
}

/// The bytes of the lines.
pub open spec fn line_bytes(lines: Seq<String>) -> Seq<Seq<u8>> {
    lines.map_values(|s: String| encode_utf8(s@))
}

/// Whether lines carry runs of bytes, one each.
pub open spec fn all_carry(lines: Seq<Seq<u8>>, runs: Seq<Seq<u8>>) -> bool {
    &&& lines.len() == runs.len()
    &&& forall|i: int| 0 <= i < lines.len() ==> carries(#[trigger] lines[i], runs[i])
}

/// Writes a message as lines under a given id, one for each envelope.
pub fn lines_with_id(data: &[u8], message_id: &str) -> (r: Vec<String>)
    requires
        chunk::envelope_id(message_id@),
    ensures
        r@.len() == chunk::envelopes(data@, message_id@).len(),
        forall|i: int|
            0 <= i < r@.len() ==> (#[trigger] r@[i])@ == buffer::base64_text(
                chunk::envelopes(data@, message_id@)[i],
            ).push('\n'),
        all_carry(line_bytes(r@), chunk::envelopes(data@, message_id@)),
{
    let chunks = chunk::chunks_with_id(data, message_id);
    let ghost envelopes = chunk::envelopes(data@, message_id@);
    let mut out: Vec<String> = Vec::new();
    let mut i: usize = 0;
    while i < chunks.len()
        invariant
            chunk::payloads(chunks@) == envelopes,
            envelopes == chunk::envelopes(data@, message_id@),
            chunk::envelope_id(message_id@),
            i <= chunks.len(),
            out@.len() == i,
            forall|k: int|
                0 <= k < i ==> (#[trigger] out@[k])@ == buffer::base64_text(envelopes[k]).push(
                    '\n',
                ) && carries(encode_utf8(out@[k]@), envelopes[k]),
        decreases chunks.len() - i,
    {
        let chunk_bytes = buffer::bytes_slice(&chunks[i]);
        assert(chunk_bytes@ == chunk::payloads(chunks@)[i as int]);
        proof {
            chunk::lemma_envelope_len(data@, message_id@, i as int);
        }
        out.push(encode_line(chunk_bytes));
        i += 1;
    }
    assert(all_carry(line_bytes(out@), envelopes));
    out
}

/// Writes a message as lines under an id of its own, one for each envelope.
pub fn create_lines(data: &[u8]) -> (r: Vec<String>)
    ensures
        exists|id: Seq<char>|
            chunk::own_id(id) && all_carry(
                line_bytes(r@),
                #[trigger] chunk::envelopes(data@, id),
            ),
{
    let id = chunk::new_uuid();
    let message_id = text::to_uppercase(id.as_str());
    proof {
        chunk::lemma_uuid_is_envelope_id(id@);
    }
    assert(chunk::own_id(message_id@));
    lines_with_id(data, message_id.as_str())
}

/// The state of a connection over a serial port while it lasts. Times are in nanoseconds from any
/// origin.
pub struct SppLink {
    pub device_address: DeviceAddress,
    pub handler: MsgPackProtocolHandler,
    pub input: BytesMut,
    pub last_daemon_ready: u64,
}

/// The state of a connection over a serial port, apart from how it is stored.
#[verifier::ext_equal]
pub struct SppLinkModel {
    pub device_address: DeviceAddress,
    pub handler: HandlerModel,
    pub input: Seq<u8>,
    pub last_daemon_ready: u64,
}

impl View for SppLink {
    type V = SppLinkModel;

    open spec fn view(&self) -> SppLinkModel {
        SppLinkModel {
            device_address: self.device_address,
            handler: self.handler@,
            input: buffer::held(self.input),
            last_daemon_ready: self.last_daemon_ready,
        }
    }
}

/// The url of the image that a request asks for.
pub open spec fn image_url(doc: JsonModel) -> Option<Seq<char>> {
    match doc.field("params"@) {
        Some(params) => params.text_field("url"@),
        None => None,
    }
}

/// What the app's protocol remembers of a client's request, where the request is a document.
pub open spec fn spp_marked(h: HandlerModel, id: Seq<char>, doc: Option<JsonModel>) -> HandlerModel {
    let h = HandlerModel { requests: h.requests.insert(id), ..h };
    match doc {
        Some(doc) => match doc.text_field("method"@) {
            Some(method) => {
                let h = HandlerModel { methods: h.methods.insert(id, method), ..h };
                match image_url(doc) {
                    Some(url) if method == "spotify.image.fetch"@ => HandlerModel {
                        images: h.images.insert(id, url),
                        ..h
                    },
                    _ => h,
                }
            },
            None => h,
        },
        None => h,
    }
}

/// The call that the phone app gets for a client's request.
pub open spec fn spp_call(id: Seq<char>, doc: Option<JsonModel>) -> JsonModel {
    let doc = match doc {
        Some(doc) => doc,
        None => JsonModel::Null,
    };
    JsonModel::table().and("type"@, JsonModel::Text("call"@)).and("id"@, JsonModel::Text(id)).and(
        "method"@,
        JsonModel::Text(iap2_wrapper::method_of(doc)),
    ).and(
        "params"@,
        match doc.field("params"@) {
            Some(params) => params,
            None => JsonModel::table(),
        },
    )
}

/// The document in some bytes, where they are one.
pub open spec fn document(data: Seq<u8>) -> Option<JsonModel> {
    match value::json_read(data) {
        Ok(doc) => Some(doc),
        Err(_) => None,
    }
}

impl SppLinkModel {
    /// The connection after a look at the time.
    pub open spec fn ticked(self, now: u64) -> SppLinkModel {
        SppLinkModel {
            last_daemon_ready: if self.ready_due(now) {
                now
            } else {
                self.last_daemon_ready
            },
            ..self
        }
    }

    /// Whether the phone app is told again that the daemon is there.
    pub open spec fn ready_due(self, now: u64) -> bool {
        !self.handler.app_ready && iap2_wrapper::passed(
            now,
            self.last_daemon_ready,
            DAEMON_READY_INTERVAL,
        )
    }
}

fn find_break(data: &[u8]) -> (r: usize)
    ensures
        r == line_len(data@),
        r <= data@.len(),
{
    let mut i: usize = 0;
    assert(data@.skip(0) =~= data@);
    while i < data.len() && data[i] != 10
        invariant
            i <= data@.len(),
            data@.len() == data.len(),
            line_len(data@) == i + line_len(data@.skip(i as int)),
        decreases data.len() - i,
    {
        assert(data@.skip(i as int).skip(1) =~= data@.skip(i + 1));
        i += 1;
    }
    i
}

impl SppLink {
    /// A connection to a device that has just been made. The phone app is told that the daemon is
    /// there.
    pub fn new(device_address: DeviceAddress, has_websocket: bool, now: u64) -> (r: (
        SppLink,
        MsgPackMessage,
    ))
        ensures
            r.0@ == (SppLinkModel {
                device_address,
                handler: HandlerModel {
                    session_id: Some(0u8),
                    has_session: true,
                    ..HandlerModel::fresh(has_websocket, has_websocket)
                },
                input: Seq::empty(),
                last_daemon_ready: now,
            }),
            r.0@.handler.well_formed(),
            r.1@ == iap2_wrapper::daemon_ready_model(),
    {
        let mut handler = if has_websocket {
            MsgPackProtocolHandler::with_image_cache(true)
        } else {
            MsgPackProtocolHandler::new(false)
        };
        handler.set_session_info(0);
        (
            SppLink {
                device_address,
                handler,
                input: buffer::new_buffer(),
                last_daemon_ready: now,
            },
            iap2_wrapper::daemon_ready(),
        )
    }

    /// Bytes of the stream come.
    pub fn on_bytes(&mut self, data: &[u8])
        requires
            old(self)@.input.len() + data@.len() <= isize::MAX,
        ensures
            final(self)@ == (SppLinkModel { input: old(self)@.input + data@, ..old(self)@ }),
    {
        buffer::buffer_extend(&mut self.input, data);
    }

    /// Hands out the next message of the stream, where its line is there in full. Lines that stand
    /// for no bytes are passed over.
    pub fn next_message(&mut self) -> (r: Option<AppMessage>)
        ensures
            match r {
                Some(m) => {
                    let read = lines_read(old(self)@.input);
                    &&& chunk::uuid_text(m@.id)
                    &&& read.messages.len() > 0
                    &&& m@ == (AppMessageModel {
                        id: m@.id,
                        protocol: "com.usenocturne.daemon"@,
                        session_id: 0,
                        data: read.messages[0],
                    })
                    &&& final(self)@.input == old(self)@.input.skip(
                        first_message_end(old(self)@.input) as int,
                    )
                    &&& final(self)@.input.len() < old(self)@.input.len()
                    &&& lines_read(final(self)@.input) == (LinesRead {
                        messages: read.messages.skip(1),
                        rest: read.rest,
                    })
                },
                None => {
                    &&& lines_read(old(self)@.input).messages.len() == 0
                    &&& final(self)@.input == lines_read(old(self)@.input).rest
                    &&& final(self)@.input.len() <= old(self)@.input.len()
                },
            },
            final(self)@ == (SppLinkModel { input: final(self)@.input, ..old(self)@ }),
    {
        let ghost start = self@;
        let ghost mut passed: nat = 0;
        assert(start.input.skip(0) =~= start.input);
        loop
            invariant
                start == old(self)@,
                passed <= start.input.len(),
                self@.input == start.input.skip(passed as int),
                first_message_end(start.input) == passed + first_message_end(self@.input),
                lines_read(self@.input) == lines_read(start.input),
                self@ == (SppLinkModel { input: self@.input, ..start }),
            decreases self@.input.len(),
        {
            let ghost input = self@.input;
            let end: usize = {
                let data = buffer::buffer_slice(&self.input);
                let end: usize = find_break(data);
                if end == data.len() {
                    return None;
                }
                end
            };
            let line = buffer::buffer_split_to(&mut self.input, end + 1);
            let text_line = slice_subrange(buffer::buffer_slice(&line), 0, end);
            assert(text_line@ =~= input.take(end as int));
            proof {
                assert(self@.input =~= start.input.skip(passed + end + 1));
                passed = passed + end as nat + 1;
            }
            match buffer::base64_decode(text_line) {
                Ok(data) => {
                    let id = chunk::new_uuid();
                    proof {
                        let later = lines_read(self@.input);
                        assert(lines_read(input).messages == seq![data@] + later.messages);
                        assert(lines_read(input).messages.skip(1) =~= later.messages);
                    }
                    return Some(
                        AppMessage {
                            id,
                            protocol: "com.usenocturne.daemon".to_owned(),
                            session_id: 0,
                            data: buffer::bytes_copy(data.as_slice()),
                        },
                    );
                },
                Err(_) => {},
            }
        }
    }

    /// A client's request comes: makes the call that the phone app gets, and remembers what its
    /// answer is for.
    pub fn on_request(&mut self, message: &AppMessage) -> (r: Json)
        ensures
            r@ == spp_call(message@.id, document(message@.data)),
            final(self)@ == (SppLinkModel {
                handler: spp_marked(old(self)@.handler, message@.id, document(message@.data)),
                ..old(self)@
            }),
    {
        self.handler.mark_as_websocket_message(message.id.clone());
        let doc = match value::read_json(buffer::bytes_slice(&message.data)) {
            Ok(doc) => doc,
            Err(_) => Json::Null,
        };
        let id = message.id.as_str();
        if let Some(method) = doc.get_str("method") {
            self.handler.mark_method_for_message(id.to_owned(), method.to_owned());
            if text::same(method, "spotify.image.fetch") {
                if let Some(params) = doc.get("params") {
                    if let Some(url) = params.get_str("url") {
                        self.handler.mark_as_image_request(id.to_owned(), url.to_owned());
                    }
                }
            }
        }
        let method = match doc.get_str("method") {
            Some(m) => m,
            None => "unknown",
        };
        let params = match doc.get("params") {
            Some(p) => p.clone(),
            None => Json::table(),
        };
        Json::table().and("type", Json::text("call")).and("id", Json::text(id)).and(
            "method",
            Json::text(method),
        ).and("params", params)
    }

    /// The recorder tells something: says what is passed on to the phone app.
    pub fn on_audio(&self, event: &AudioEvent) -> (r: Option<MsgPackMessage>)
        requires
            event is Data ==> buffer::base64_fits(event->Data_opus_data@.len()),
        ensures
            match r {
                Some(m) => iap2_wrapper::audio_message_model(event@) == Some(m@),
                None => iap2_wrapper::audio_message_model(event@) is None,
            },
    {
        iap2_wrapper::audio_message(event)
    }

    /// Looks at the time: says whether the phone app is told that the daemon is there.
    pub fn on_tick(&mut self, now: u64) -> (r: Option<MsgPackMessage>)
        ensures
            final(self)@ == (SppLinkModel {
                last_daemon_ready: if old(self)@.ready_due(now) {
                    now
                } else {
                    old(self)@.last_daemon_ready
                },
                ..old(self)@
            }),
            match r {
                Some(m) => old(self)@.ready_due(now) && m@ == iap2_wrapper::daemon_ready_model(),
                None => !old(self)@.ready_due(now),
            },
            final(self)@ == old(self)@.ticked(now),
    {
        if !self.handler.app_ready_flag() && now >= self.last_daemon_ready && now
            - self.last_daemon_ready >= DAEMON_READY_INTERVAL {
            self.last_daemon_ready = now;
            Some(iap2_wrapper::daemon_ready())
        } else {
            None
        }
    }
}

proof fn lemma_line_len(data: Seq<u8>)
    ensures
        line_len(data) <= data.len(),
        forall|i: int| 0 <= i < line_len(data) ==> data[i] != 10,
        line_len(data) < data.len() ==> data[line_len(data) as int] == 10,
    decreases data.len(),
{
    if data.len() > 0 && data[0] != 10 {
        lemma_line_len(data.skip(1));
        assert forall|i: int| 0 <= i < line_len(data) implies data[i] != 10 by {
            if i > 0 {
                assert(data[i] == data.skip(1)[i - 1]);
            }
        }
        if line_len(data) < data.len() {
            assert(data[line_len(data) as int] == data.skip(1)[line_len(data) - 1]);
        }
    }
}

proof fn lemma_line_len_is(data: Seq<u8>, n: nat)
    requires
        n < data.len(),
        data[n as int] == 10,
        forall|i: int| 0 <= i < n ==> data[i] != 10,
    ensures
        line_len(data) == n,
    decreases n,
{
    if n > 0 {
        let later = data.skip(1);
        assert forall|i: int| 0 <= i < n - 1 implies later[i] != 10 by {
            assert(later[i] == data[i + 1]);
        }
        lemma_line_len_is(later, (n - 1) as nat);
    }
}

/// Into which parts a stream is cut makes no difference to the messages that come of it.
pub proof fn law_lines_do_not_depend_on_cuts(first: Seq<u8>, second: Seq<u8>)
    ensures
        lines_read(first + second) == (LinesRead {
            messages: lines_read(first).messages + lines_read(
                lines_read(first).rest + second,
            ).messages,
            rest: lines_read(lines_read(first).rest + second).rest,
        }),
    decreases first.len(),
{
    let all = first + second;
    let n = line_len(first);
    lemma_line_len(first);
    if n < first.len() {
        assert forall|i: int| 0 <= i < n implies all[i] != 10 by {
            assert(all[i] == first[i]);
        }
        lemma_line_len_is(all, n);
        assert(all.skip(n as int + 1) =~= first.skip(n as int + 1) + second);
        assert(all.take(n as int) =~= first.take(n as int));
        law_lines_do_not_depend_on_cuts(first.skip(n as int + 1), second);
        let later = lines_read(first.skip(n as int + 1));
        let last = lines_read(later.rest + second);
        match buffer::base64_decoded(first.take(n as int)) {
            Ok(message) => {
                assert(seq![message] + (later.messages + last.messages) =~= (seq![message]
                    + later.messages) + last.messages);
            },
            Err(_) => {},
        }
    } else {
        assert(lines_read(first).messages + lines_read(all).messages =~= lines_read(all).messages);
    }
}

/// A line gives back the bytes that it carries, whatever comes after it.
pub proof fn law_line_reads_back(line: Seq<u8>, data: Seq<u8>, more: Seq<u8>)
    requires
        carries(line, data),
    ensures
        lines_read(line + more) == (LinesRead {
            messages: seq![data] + lines_read(more).messages,
            rest: lines_read(more).rest,
        }),
{
    let all = line + more;
    let n = (line.len() - 1) as nat;
    assert forall|i: int| 0 <= i < n implies all[i] != 10 by {
        assert(all[i] == line[i]);
    }
    assert(all[n as int] == line.last());
    lemma_line_len_is(all, n);
    assert(all.skip(n as int + 1) =~= more);
    assert(all.take(n as int) =~= line.drop_last());
}

/// Lines that carry runs of bytes give back those runs, in their order, and nothing is left.
pub proof fn law_lines_carry_the_chunks(lines: Seq<Seq<u8>>, runs: Seq<Seq<u8>>)
    requires
        all_carry(lines, runs),
    ensures
        lines_read(lines.flatten()) == (LinesRead { messages: runs, rest: Seq::empty() }),
    decreases lines.len(),
{
    if lines.len() == 0 {
        assert(lines.flatten() =~= Seq::empty());
        assert(runs =~= Seq::empty());
    } else {
        let later = lines.drop_first();
        assert(all_carry(later, runs.drop_first())) by {
            assert forall|i: int| 0 <= i < later.len() implies carries(
                #[trigger] later[i],
                runs.drop_first()[i],
            ) by {
                assert(later[i] == lines[i + 1]);
            }
        }
        law_lines_carry_the_chunks(later, runs.drop_first());
        assert(carries(lines[0], runs[0]));
        law_line_reads_back(lines[0], runs[0], later.flatten());
        assert(lines.flatten() =~= lines[0] + later.flatten());
        assert(seq![runs[0]] + runs.drop_first() =~= runs);
    }
}

/// A message that is written as lines, sent as one stream and cut anywhere comes out once, whole
/// and unchanged, and leaves nothing behind.
pub proof fn law_message_crosses_the_serial_line(
    state: InboundModel,
    data: Seq<u8>,
    id: Seq<char>,
    lines: Seq<Seq<u8>>,
    first: Seq<u8>,
    second: Seq<u8>,
)
    requires
        chunk::envelope_id(id),
        0 < data.len(),
        chunk::chunk_count(data.len()) <= 1000,
        state.buffered(0).len() == 0,
        !state.pending.contains_key(id),
        all_carry(lines, chunk::envelopes(data, id)),
        first + second == lines.flatten(),
    ensures
        ({
            let early = lines_read(first);
            let late = lines_read(early.rest + second);
            let (after, arrived) = link_laws::after_parts(state, 0, early.messages + late.messages);
            &&& late.rest == Seq::<u8>::empty()
            &&& arrived == (ArrivedModel { completed: seq![data], ..inbound::nothing_arrived() })
            &&& after.buffered(0) == Seq::<u8>::empty()
            &&& after.pending == state.pending
        }),
{
    law_lines_carry_the_chunks(lines, chunk::envelopes(data, id));
    law_lines_do_not_depend_on_cuts(first, second);
    link_laws::law_envelopes_one_by_one_make_the_message(state, 0, data, id);
}

/// What the app is called with for a client is remembered, so that its answer finds the client.
pub proof fn law_spp_request_is_remembered(h: HandlerModel, id: Seq<char>, doc: Option<JsonModel>)
    ensures
        spp_marked(h, id, doc).requests.contains(id),
        spp_marked(h, id, doc).inbound == h.inbound,
        spp_marked(h, id, doc).files == h.files,
{
}

/// The app is called with the method and the parameters of the request, under its id.
pub proof fn law_spp_call_is_the_request(id: Seq<char>, doc: JsonModel)
    ensures
        spp_call(id, Some(doc)).text_field("type"@) == Some("call"@),
        spp_call(id, Some(doc)).text_field("id"@) == Some(id),
        doc.text_field("method"@) is Some ==> spp_call(id, Some(doc)).text_field("method"@)
            == doc.text_field("method"@),
        doc.field("params"@) is Some ==> spp_call(id, Some(doc)).field("params"@) == doc.field(
            "params"@,
        ),
        spp_call(id, None).text_field("id"@) == Some(id),
{
    let params = match doc.field("params"@) {
        Some(params) => params,
        None => JsonModel::table(),
    };
    reveal_strlit("type");
    reveal_strlit("id");
    reveal_strlit("method");
    reveal_strlit("params");
    assert("type"@.len() == 4 && "id"@.len() == 2 && "method"@.len() == 6);
    assert("params"@.len() == 6);
    assert("method"@[0] != "params"@[0]);
    let d0 = JsonModel::table();
    crate::json::law_bare_object_has_no_member("type"@);
    crate::json::law_bare_object_has_no_member("id"@);
    crate::json::law_bare_object_has_no_member("method"@);
    crate::json::law_bare_object_has_no_member("params"@);
    crate::json::law_member_is_found(d0, "type"@, JsonModel::Text("call"@));
    let d1 = d0.and("type"@, JsonModel::Text("call"@));
    crate::json::law_member_is_found(d1, "id"@, JsonModel::Text(id));
    let d2 = d1.and("id"@, JsonModel::Text(id));
    crate::json::law_member_is_found(d2, "method"@, JsonModel::Text(iap2_wrapper::method_of(doc)));
    let d3 = d2.and("method"@, JsonModel::Text(iap2_wrapper::method_of(doc)));
    crate::json::law_member_is_found(d3, "params"@, params);
    let d4 = d3.and("params"@, params);
    assert(spp_call(id, Some(doc)) == d4);
    let none = JsonModel::Null;
    let bare = match none.field("params"@) {
        Some(params) => params,
        None => JsonModel::table(),
    };
    let unknown = JsonModel::Text(iap2_wrapper::method_of(none));
    crate::json::law_member_is_found(d2, "method"@, unknown);
    let e3 = d2.and("method"@, unknown);
    crate::json::law_member_is_found(e3, "params"@, bare);
    assert(spp_call(id, None) == e3.and("params"@, bare));
}

/// What is remembered of a request is its method, and the address of the image where it asks for
/// one; what is remembered of other requests stays as it is.
pub proof fn law_spp_request_leaves_others_alone(
    h: HandlerModel,
    id: Seq<char>,
    doc: JsonModel,
    other: Seq<char>,
)
    ensures
        doc.text_field("method"@) matches Some(method) ==> {
            &&& spp_marked(h, id, Some(doc)).methods.contains_key(id)
            &&& spp_marked(h, id, Some(doc)).methods[id] == method
        },
        (doc.text_field("method"@) == Some("spotify.image.fetch"@) && image_url(doc) is Some) ==> {
            &&& spp_marked(h, id, Some(doc)).images.contains_key(id)
            &&& Some(spp_marked(h, id, Some(doc)).images[id]) == image_url(doc)
        },
        doc.text_field("method"@) != Some("spotify.image.fetch"@) ==> spp_marked(
            h,
            id,
            Some(doc),
        ).images == h.images,
        other != id ==> {
            let after = spp_marked(h, id, Some(doc));
            &&& after.requests.contains(other) == h.requests.contains(other)
            &&& after.methods.contains_key(other) == h.methods.contains_key(other)
            &&& after.methods.contains_key(other) ==> after.methods[other] == h.methods[other]
            &&& after.images.contains_key(other) == h.images.contains_key(other)
            &&& after.images.contains_key(other) ==> after.images[other] == h.images[other]
        },
{
}

/// Over the serial line too, the app is told that the daemon is there until it answers, as often as
/// the interval says.
pub proof fn law_spp_ready_is_told_until_answered(link: SppLinkModel, now: u64, later: u64)
    ensures
        link.ready_due(now) && link.ticked(now).ready_due(later) ==> later - now
            >= DAEMON_READY_INTERVAL,
        !link.ready_due(now) ==> link.ticked(now) == link,
        link.ticked(now).handler == link.handler,
        link.ticked(now).input == link.input,
        link.handler.app_ready ==> !link.ready_due(now),
        !link.handler.app_ready && now - link.last_daemon_ready >= DAEMON_READY_INTERVAL
            ==> link.ready_due(now),
        link.ready_due(now) ==> now - link.last_daemon_ready >= DAEMON_READY_INTERVAL,
{
}

/// The first line that stands for bytes ends at a line break, and the messages before that are one.
pub proof fn law_messages_are_taken_one_by_one(data: Seq<u8>)
    ensures
        first_message_end(data) <= data.len(),
        lines_read(data).messages.len() > 0 ==> {
            let n = first_message_end(data) as int;
            &&& n > 0
            &&& data[n - 1] == 10
            &&& lines_read(data.take(n)).messages == lines_read(data).messages.take(1)
            &&& lines_read(data.take(n)).rest.len() == 0
            &&& lines_read(data.skip(n)).messages == lines_read(data).messages.skip(1)
            &&& lines_read(data.skip(n)).rest == lines_read(data).rest
        },
    decreases data.len(),
{
    lemma_line_len(data);
    let n = line_len(data) as int;
    if n < data.len() {
        let later = data.skip(n + 1);
        law_messages_are_taken_one_by_one(later);
        let end = first_message_end(data) as int;
        let all = lines_read(data).messages;
        match buffer::base64_decoded(data.take(n)) {
            Ok(message) => {
                let head = data.take(n + 1);
                assert forall|i: int| 0 <= i < n implies head[i] != 10 by {
                    assert(head[i] == data[i]);
                }
                lemma_line_len_is(head, n as nat);
                assert(head.take(n) =~= data.take(n));
                assert(head.skip(n + 1) =~= Seq::empty());
                assert(lines_read(Seq::empty()).messages =~= Seq::empty());
                assert(lines_read(head).messages =~= seq![message]);
                assert(all.take(1) =~= seq![message]);
                assert(all.skip(1) =~= lines_read(later).messages);
            },
            Err(_) => {
                if lines_read(later).messages.len() > 0 {
                    let head = data.take(end);
                    assert(end == n + 1 + first_message_end(later));
                    assert forall|i: int| 0 <= i < n implies head[i] != 10 by {
                        assert(head[i] == data[i]);
                    }
                    assert(head[n] == data[n]);
                    lemma_line_len_is(head, n as nat);
                    assert(head.take(n) =~= data.take(n));
                    assert(head.skip(n + 1) =~= later.take(end - n - 1));
                    assert(data.skip(end) =~= later.skip(end - n - 1));
                }
            },
        }
    }
}

} // verus!
