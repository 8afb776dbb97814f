//! System updates that come over the link: files that the phone pushes in chunks, and packages
//! that the daemon pulls range by range.
use crate::buffer;
use crate::error::{ErrorModel, NocturnedError};
use crate::json;
use crate::json::{Json, JsonModel, JsonNumber};
use crate::table::TextMap;
use crate::text;
use vstd::prelude::*;
use vstd::utf8::*;

verus! {

broadcast use crate::json::lemma_json_view;

/// The most bytes that one request for a range of a package asks for.
pub const OTA_CHUNK_SIZE: usize = 1800;

/// A chunk of a pushed file.
#[derive(Debug)]
pub struct OtaPiece {
    pub index: usize,
    pub data: Vec<u8>,
}

impl View for OtaPiece {
    type V = (usize, Seq<u8>);

    open spec fn view(&self) -> (usize, Seq<u8>) {
        (self.index, self.data@)
    }
}

/// What is there of a pushed file: how many chunks it has, and those that came, in order.
#[derive(Debug)]
pub struct OtaFile {
    slots: usize,
    pieces: Vec<OtaPiece>,
}

/// A pushed file, apart from how it is stored.
#[verifier::ext_equal]
pub struct OtaFileModel {
    pub slots: usize,
    pub pieces: Seq<(usize, Seq<u8>)>,
}

/// The chunks of a pushed file.
pub open spec fn piece_models(pieces: Seq<OtaPiece>) -> Seq<(usize, Seq<u8>)> {
    pieces.map_values(|p: OtaPiece| p@)
}

impl View for OtaFile {
    type V = OtaFileModel;

    closed spec fn view(&self) -> OtaFileModel {
        OtaFileModel { slots: self.slots, pieces: piece_models(self.pieces@) }
    }
}

/// The chunks with one more in its place, or in place of the one that had its index.
pub open spec fn placed(pieces: Seq<(usize, Seq<u8>)>, index: usize, data: Seq<u8>) -> Seq<
    (usize, Seq<u8>),
>
    decreases pieces.len(),
{
    if pieces.len() == 0 || pieces[0].0 > index {
        seq![(index, data)] + pieces
    } else if pieces[0].0 == index {
        pieces.update(0, (index, data))
    } else {
        seq![pieces[0]] + placed(pieces.drop_first(), index, data)
    }
}

/// The bytes of the chunks, one after the other.
pub open spec fn file_bytes(pieces: Seq<(usize, Seq<u8>)>) -> Seq<u8>
    decreases pieces.len(),
{
    if pieces.len() == 0 {
        Seq::empty()
    } else {
        file_bytes(pieces.drop_last()) + pieces.last().1
    }
}

impl OtaFileModel {
    /// The chunks are in order, each once, and each has a slot.
    pub open spec fn well_formed(self) -> bool {
        &&& forall|i: int, j: int|
            0 <= i < j < self.pieces.len() ==> (#[trigger] self.pieces[i]).0 < (
            #[trigger] self.pieces[j]).0
        &&& forall|i: int| 0 <= i < self.pieces.len() ==> (#[trigger] self.pieces[i]).0 < self.slots
    }

    /// The file with one more chunk.
    pub open spec fn with_piece(self, index: usize, data: Seq<u8>) -> OtaFileModel {
        OtaFileModel { slots: self.slots, pieces: placed(self.pieces, index, data) }
    }
}

/// Where a chunk goes, and that the order is kept.
proof fn lemma_placed(pieces: Seq<(usize, Seq<u8>)>, index: usize, data: Seq<u8>, at: int)
    requires
        0 <= at <= pieces.len(),
        forall|i: int| 0 <= i < at ==> (#[trigger] pieces[i]).0 < index,
        at < pieces.len() ==> pieces[at].0 >= index,
    ensures
        placed(pieces, index, data) == if at < pieces.len() && pieces[at].0 == index {
            pieces.update(at, (index, data))
        } else {
            pieces.insert(at, (index, data))
        },
    decreases pieces.len(),
{
    let goal = if at < pieces.len() && pieces[at].0 == index {
        pieces.update(at, (index, data))
    } else {
        pieces.insert(at, (index, data))
    };
    if at == 0 {
        assert(placed(pieces, index, data) =~= goal);
    } else {
        let rest = pieces.drop_first();
        assert forall|i: int| 0 <= i < at - 1 implies (#[trigger] rest[i]).0 < index by {
            assert(rest[i] == pieces[i + 1]);
        }
        assert(pieces[0].0 < index);
        lemma_placed(rest, index, data, at - 1);
        assert(placed(pieces, index, data) =~= goal);
    }
}

impl OtaFile {
    /// A file of which nothing is there yet.
    pub fn new(slots: usize) -> (r: OtaFile)
        ensures
            r@ == (OtaFileModel { slots, pieces: Seq::empty() }),
            r@.well_formed(),
    {
        let r = OtaFile { slots, pieces: Vec::new() };
        assert(r@ =~= OtaFileModel { slots, pieces: Seq::empty() });
        r
    }

    /// Takes in a chunk.
    pub fn place(&mut self, index: usize, data: Vec<u8>)
        requires
            old(self)@.well_formed(),
            index < old(self)@.slots,
        ensures
            final(self)@ == old(self)@.with_piece(index, data@),
            final(self)@.well_formed(),
    {
        let ghost before = self@;
        let mut at: usize = 0;
        while at < self.pieces.len() && self.pieces[at].index < index
            invariant
                at <= self.pieces.len(),
                self@ == before,
                forall|i: int| 0 <= i < at ==> (#[trigger] before.pieces[i]).0 < index,
            decreases self.pieces.len() - at,
        {
            assert(before.pieces[at as int].0 == self.pieces@[at as int].index);
            at += 1;
        }
        proof {
            if at < self.pieces@.len() {
                assert(before.pieces[at as int].0 == self.pieces@[at as int].index);
            }
            lemma_placed(before.pieces, index, data@, at as int);
        }
        let piece = OtaPiece { index, data };
        if at < self.pieces.len() && self.pieces[at].index == index {
            self.pieces.set(at, piece);
        } else {
            self.pieces.insert(at, piece);
        }
        assert(self@ =~= before.with_piece(index, data@));
    }

    /// How many chunks came.
    pub fn received(&self) -> (r: usize)
        ensures
            r == self@.pieces.len(),
    {
        self.pieces.len()
    }

    /// The chunks that came, one after the other.
    pub fn assemble(&self) -> (r: Vec<u8>)
        ensures
            r@ == file_bytes(self@.pieces),
    {
        let mut out: Vec<u8> = Vec::new();
        let mut i: usize = 0;
        assert(self@.pieces.take(0) =~= Seq::empty());
        while i < self.pieces.len()
            invariant
                i <= self.pieces.len(),
                out@ == file_bytes(self@.pieces.take(i as int)),
            decreases self.pieces.len() - i,
        {
            let ghost t = self@.pieces.take(i + 1);
            assert(t.drop_last() =~= self@.pieces.take(i as int));
            assert(t.last().1 == self.pieces@[i as int].data@);
            append_bytes(&mut out, &self.pieces[i].data);
            i += 1;
        }
        assert(self@.pieces.take(i as int) =~= self@.pieces);
        out
    }
}

/// Puts bytes at the end of others.
pub fn append_bytes(out: &mut Vec<u8>, data: &Vec<u8>)
    ensures
        final(out)@ == old(out)@ + data@,
{
    let ghost before = out@;
    let mut i: usize = 0;
    while i < data.len()
        invariant
            i <= data.len(),
            out@ == before + data@.take(i as int),
        decreases data.len() - i,
    {
        out.push(data[i]);
        assert(data@.take(i + 1) =~= data@.take(i as int).push(data@[i as int]));
        i += 1;
    }
    assert(data@.take(i as int) =~= data@);
}

/// A file with as many chunks as it has slots has every one of them, in order.
pub proof fn law_full_file_has_every_chunk(file: OtaFileModel)
    requires
        file.well_formed(),
        file.pieces.len() == file.slots,
    ensures
        forall|k: int| 0 <= k < file.slots ==> (#[trigger] file.pieces[k]).0 == k,
{
    assert forall|k: int| 0 <= k < file.slots implies (#[trigger] file.pieces[k]).0 == k by {
        lemma_at_least(file, k);
        lemma_at_most(file, k);
    }
}

proof fn lemma_at_least(file: OtaFileModel, k: int)
    requires
        file.well_formed(),
        0 <= k < file.pieces.len(),
    ensures
        file.pieces[k].0 >= k,
    decreases k,
{
    if k > 0 {
        lemma_at_least(file, k - 1);
        assert(file.pieces[k - 1].0 < file.pieces[k].0);
    }
}

proof fn lemma_at_most(file: OtaFileModel, k: int)
    requires
        file.well_formed(),
        file.pieces.len() == file.slots,
        0 <= k < file.pieces.len(),
    ensures
        file.pieces[k].0 <= k,
    decreases file.pieces.len() - k,
{
    if k < file.pieces.len() - 1 {
        lemma_at_most(file, k + 1);
        assert(file.pieces[k].0 < file.pieces[k + 1].0);
    } else {
        assert(file.pieces[k].0 < file.slots);
    }
}

/// A chunk that was taken in is there, and the others are as they were.
pub proof fn law_placed_chunk_is_there(
    pieces: Seq<(usize, Seq<u8>)>,
    index: usize,
    data: Seq<u8>,
    other: (usize, Seq<u8>),
)
    ensures
        placed(pieces, index, data).contains((index, data)),
        other.0 != index ==> (placed(pieces, index, data).contains(other) <==> pieces.contains(other)),
    decreases pieces.len(),
{
    let after = placed(pieces, index, data);
    if pieces.len() == 0 || pieces[0].0 > index {
        assert(after[0] == (index, data));
        assert forall|i: int| 0 <= i < pieces.len() implies #[trigger] after[i + 1] == pieces[i] by {}
        if pieces.contains(other) {
            let i = choose|i: int| 0 <= i < pieces.len() && pieces[i] == other;
            assert(after[i + 1] == other);
        }
        if other.0 != index && after.contains(other) {
            let i = choose|i: int| 0 <= i < after.len() && after[i] == other;
            assert(pieces[i - 1] == other);
        }
    } else if pieces[0].0 == index {
        assert(after[0] == (index, data));
        if other.0 != index && pieces.contains(other) {
            let i = choose|i: int| 0 <= i < pieces.len() && pieces[i] == other;
            assert(after[i] == other);
        }
        if other.0 != index && after.contains(other) {
            let i = choose|i: int| 0 <= i < after.len() && after[i] == other;
            assert(pieces[i] == other);
        }
    } else {
        let rest = pieces.drop_first();
        law_placed_chunk_is_there(rest, index, data, other);
        let tail = placed(rest, index, data);
        let j = choose|j: int| 0 <= j < tail.len() && tail[j] == (index, data);
        assert(after[j + 1] == (index, data));
        if other.0 != index && pieces.contains(other) {
            let i = choose|i: int| 0 <= i < pieces.len() && pieces[i] == other;
            if i == 0 {
                assert(after[0] == other);
            } else {
                assert(rest[i - 1] == other);
                let k = choose|k: int| 0 <= k < tail.len() && tail[k] == other;
                assert(after[k + 1] == other);
            }
        }
        if other.0 != index && after.contains(other) {
            let i = choose|i: int| 0 <= i < after.len() && after[i] == other;
            if i == 0 {
                assert(pieces[0] == other);
            } else {
                assert(tail[i - 1] == other);
                let k = choose|k: int| 0 <= k < rest.len() && rest[k] == other;
                assert(pieces[k + 1] == other);
            }
        }
    }
}

/// A file that is to be written.
#[derive(Debug)]
pub struct FileWrite {
    pub path: String,
    pub data: Vec<u8>,
}

/// A file that is to be written, apart from how it is stored.
pub struct FileWriteModel {
    pub path: Seq<char>,
    pub data: Seq<u8>,
}

impl View for FileWrite {
    type V = FileWriteModel;

    open spec fn view(&self) -> FileWriteModel {
        FileWriteModel { path: self.path@, data: self.data@ }
    }
}

/// What the clients are told once a file is written.
pub open spec fn complete_event(path: Seq<char>, size: nat) -> JsonModel {
    JsonModel::table().and("status"@, JsonModel::Text("complete"@)).and(
        "file_path"@,
        JsonModel::Text(path),
    ).and("size"@, JsonModel::Number(JsonNumber::Unsigned(size as u64)))
}

/// The event that says that a file is written.
pub fn complete_event_data(path: &str, size: usize) -> (r: Json)
    ensures
        r@ == complete_event(path@, size as nat),
{
    Json::table().and("status", Json::text("complete")).and("file_path", Json::text(path)).and(
        "size",
        Json::unsigned(size as u64),
    )
}

/// The pushed files that are not complete yet.
#[derive(Debug)]
pub struct OtaFiles {
    files: TextMap<OtaFile>,
}

/// The models of the files.
pub open spec fn file_models(files: Map<Seq<char>, OtaFile>) -> Map<Seq<char>, OtaFileModel> {
    files.map_values(|f: OtaFile| f@)
}

impl View for OtaFiles {
    type V = Map<Seq<char>, OtaFileModel>;

    closed spec fn view(&self) -> Map<Seq<char>, OtaFileModel> {
        file_models(self.files@)
    }
}

/// The text of a member, or another where it is missing or no text.
pub open spec fn text_or(data: JsonModel, key: Seq<char>, other: Seq<char>) -> Seq<char> {
    match data.text_field(key) {
        Some(s) => s,
        None => other,
    }
}

fn get_text_or(data: &Json, key: &str, other: &str) -> (r: String)
    ensures
        r@ == text_or(data@, key@, other@),
{
    match data.get_str(key) {
        Some(s) => s.to_owned(),
        None => other.to_owned(),
    }
}

/// A chunk of a pushed file, as a message brings it.
#[derive(Debug)]
pub struct ChunkMessage {
    pub index: usize,
    pub total: usize,
    pub file_name: String,
    pub data: Vec<u8>,
}

/// A chunk of a pushed file, apart from how it is stored.
pub struct ChunkMessageModel {
    pub index: usize,
    pub total: usize,
    pub file_name: Seq<char>,
    pub data: Seq<u8>,
}

impl View for ChunkMessage {
    type V = ChunkMessageModel;

    open spec fn view(&self) -> ChunkMessageModel {
        ChunkMessageModel {
            index: self.index,
            total: self.total,
            file_name: self.file_name@,
            data: self.data@,
        }
    }
}

/// The chunk that a message brings, or what is wrong with the message.
pub open spec fn chunk_message(data: JsonModel) -> Result<ChunkMessageModel, ErrorModel> {
    match (
        data.unsigned_field("chunk_index"@),
        data.unsigned_field("total_chunks"@),
        data.text_field("data"@),
    ) {
        (None, _, _) => Err(ErrorModel::Config("Missing chunk_index"@)),
        (_, None, _) => Err(ErrorModel::Config("Missing total_chunks"@)),
        (_, _, None) => Err(ErrorModel::Config("Missing chunk data"@)),
        (Some(index), Some(total), Some(encoded)) => match buffer::base64_decoded(
            encode_utf8(encoded),
        ) {
            Ok(bytes) => Ok(
                ChunkMessageModel {
                    index: index as usize,
                    total: total as usize,
                    file_name: text_or(data, "file_name"@, "nocturne-update.swu"@),
                    data: bytes,
                },
            ),
            Err(fault) => Err(ErrorModel::Config("Failed to decode base64: "@ + fault)),
        },
    }
}

/// Reads the chunk that a message brings.
pub fn read_chunk_message(data: &Json) -> (r: Result<ChunkMessage, NocturnedError>)
    ensures
        match r {
            Ok(c) => chunk_message(data@) == Ok::<ChunkMessageModel, ErrorModel>(c@),
            Err(e) => chunk_message(data@) == Err::<ChunkMessageModel, ErrorModel>(e@),
        },
{
    let index: u64 = match data.get_u64("chunk_index") {
        Some(n) => n,
        None => return Err(NocturnedError::config("Missing chunk_index")),
    };
    let total: u64 = match data.get_u64("total_chunks") {
        Some(n) => n,
        None => return Err(NocturnedError::config("Missing total_chunks")),
    };
    let encoded = match data.get_str("data") {
        Some(s) => s,
        None => return Err(NocturnedError::config("Missing chunk data")),
    };
    let file_name = get_text_or(data, "file_name", "nocturne-update.swu");
    match buffer::base64_decode(encoded.as_bytes()) {
        Ok(bytes) => Ok(
            ChunkMessage { index: index as usize, total: total as usize, file_name, data: bytes },
        ),
        Err(fault) => Err(
            NocturnedError::config_with("Failed to decode base64: ", fault.as_str()),
        ),
    }
}

/// The file that a chunk belongs to, which has as many slots as its first chunk says.
pub open spec fn file_of(
    files: Map<Seq<char>, OtaFileModel>,
    c: ChunkMessageModel,
) -> OtaFileModel {
    if files.contains_key(c.file_name) {
        files[c.file_name]
    } else {
        OtaFileModel { slots: c.total, pieces: Seq::empty() }
    }
}

/// The files after a chunk came. A chunk without a slot is dropped.
pub open spec fn files_after(
    files: Map<Seq<char>, OtaFileModel>,
    c: ChunkMessageModel,
) -> Map<Seq<char>, OtaFileModel> {
    let file = file_of(files, c);
    if c.index < file.slots {
        files.insert(c.file_name, file.with_piece(c.index, c.data))
    } else {
        files.insert(c.file_name, file)
    }
}

/// The file that is to be written when a chunk makes it complete: when as many chunks are there as
/// the message says.
pub open spec fn file_completed(
    files: Map<Seq<char>, OtaFileModel>,
    c: ChunkMessageModel,
) -> Option<FileWriteModel> {
    let file = file_of(files, c);
    let pieces = placed(file.pieces, c.index, c.data);
    if c.index < file.slots && pieces.len() == c.total {
        Some(FileWriteModel { path: "/tmp/"@ + c.file_name, data: file_bytes(pieces) })
    } else {
        None
    }
}

/// Every file is well formed.
pub open spec fn files_well_formed(files: Map<Seq<char>, OtaFileModel>) -> bool {
    forall|name: Seq<char>| #[trigger] files.contains_key(name) ==> files[name].well_formed()
}

impl OtaFiles {
    /// No file is pending.
    pub fn new() -> (r: OtaFiles)
        ensures
            r@ == Map::<Seq<char>, OtaFileModel>::empty(),
            files_well_formed(r@),
    {
        let r = OtaFiles { files: TextMap::new() };
        assert(r@ =~= Map::<Seq<char>, OtaFileModel>::empty());
        r
    }

    /// Takes in a chunk of a pushed file, and hands out the file where it is complete. The file is
    /// kept until it is said to be written.
    pub fn handle_ota_chunk(&mut self, data: &Json) -> (r: Result<
        Option<(String, FileWrite)>,
        NocturnedError,
    >)
        requires
            files_well_formed(old(self)@),
        ensures
            files_well_formed(final(self)@),
            match r {
                Ok(done) => {
                    &&& chunk_message(data@) matches Ok(c)
                    &&& final(self)@ == files_after(old(self)@, c)
                    &&& match done {
                        Some((name, file)) => name@ == c.file_name && file_completed(old(self)@, c)
                            == Some(file@),
                        None => file_completed(old(self)@, c) is None,
                    }
                },
                Err(e) => chunk_message(data@) == Err::<ChunkMessageModel, ErrorModel>(e@)
                    && final(self)@ == old(self)@,
            },
    {
        let c = match read_chunk_message(data) {
            Ok(c) => c,
            Err(e) => return Err(e),
        };
        let ghost before = self@;
        let ghost cm = c@;
        let mut file = match self.files.remove(c.file_name.as_str()) {
            Some(f) => f,
            None => OtaFile::new(c.total),
        };
        assert(file@ == file_of(before, cm));
        let placed_here = c.index < file.slots;
        if placed_here {
            file.place(c.index, c.data);
        }
        let done = if placed_here && file.received() == c.total {
            Some(
                (
                    c.file_name.clone(),
                    FileWrite {
                        path: text::joined("/tmp/", c.file_name.as_str()),
                        data: file.assemble(),
                    },
                ),
            )
        } else {
            None
        };
        self.files.insert(c.file_name, file);
        assert(self@ =~= files_after(before, cm));
        Ok(done)
    }

    /// Forgets a file that was written.
    pub fn written(&mut self, file_name: &str)
        ensures
            final(self)@ == old(self)@.remove(file_name@),
            files_well_formed(old(self)@) ==> files_well_formed(final(self)@),
    {
        self.files.remove(file_name);
        assert(self@ =~= old(self)@.remove(file_name@));
    }
}

/// The place of a chunk among the others.
proof fn lemma_place(pieces: Seq<(usize, Seq<u8>)>, index: usize) -> (at: int)
    ensures
        0 <= at <= pieces.len(),
        forall|i: int| 0 <= i < at ==> (#[trigger] pieces[i]).0 < index,
        at < pieces.len() ==> pieces[at].0 >= index,
    decreases pieces.len(),
{
    if pieces.len() == 0 || pieces[0].0 >= index {
        0
    } else {
        let rest = pieces.drop_first();
        let at = lemma_place(rest, index) + 1;
        assert forall|i: int| 0 <= i < at implies (#[trigger] pieces[i]).0 < index by {
            if i > 0 {
                assert(rest[i - 1] == pieces[i]);
            }
        }
        at
    }
}

/// A new chunk makes a file one chunk longer, and its order is kept.
proof fn lemma_with_new_piece(file: OtaFileModel, index: usize, data: Seq<u8>)
    requires
        file.well_formed(),
        index < file.slots,
        forall|i: int| 0 <= i < file.pieces.len() ==> (#[trigger] file.pieces[i]).0 != index,
    ensures
        file.with_piece(index, data).well_formed(),
        file.with_piece(index, data).pieces.len() == file.pieces.len() + 1,
{
    let at = lemma_place(file.pieces, index);
    lemma_placed(file.pieces, index, data, at);
}

/// The bytes of a file are all the bytes of its chunks, one chunk after the other.
pub proof fn law_file_is_its_chunks(pieces: Seq<(usize, Seq<u8>)>)
    ensures
        file_bytes(pieces) == pieces.map_values(|p: (usize, Seq<u8>)| p.1).flatten(),
    decreases pieces.len(),
{
    let parts = pieces.map_values(|p: (usize, Seq<u8>)| p.1);
    parts.lemma_flatten_and_flatten_alt_are_equivalent();
    if pieces.len() > 0 {
        let before = pieces.drop_last().map_values(|p: (usize, Seq<u8>)| p.1);
        law_file_is_its_chunks(pieces.drop_last());
        before.lemma_flatten_and_flatten_alt_are_equivalent();
        assert(parts.drop_last() =~= before);
    }
}

/// Part `i` of a file, as it is pushed.
pub open spec fn pushed_part(name: Seq<char>, parts: Seq<Seq<u8>>, i: int) -> ChunkMessageModel {
    ChunkMessageModel {
        index: i as usize,
        total: parts.len() as usize,
        file_name: name,
        data: parts[i],
    }
}

/// The files once parts of one were pushed, in some order.
pub open spec fn after_parts(
    files: Map<Seq<char>, OtaFileModel>,
    name: Seq<char>,
    parts: Seq<Seq<u8>>,
    order: Seq<int>,
) -> Map<Seq<char>, OtaFileModel>
    decreases order.len(),
{
    if order.len() == 0 {
        files
    } else {
        files_after(
            after_parts(files, name, parts, order.drop_last()),
            pushed_part(name, parts, order.last()),
        )
    }
}

/// The parts that were pushed are there, and no others.
spec fn holds_parts(
    files: Map<Seq<char>, OtaFileModel>,
    name: Seq<char>,
    parts: Seq<Seq<u8>>,
    order: Seq<int>,
) -> bool {
    let file = file_of(files, pushed_part(name, parts, 0));
    &&& file.slots == parts.len()
    &&& file.well_formed()
    &&& file.pieces.len() == order.len()
    &&& forall|i: int|
        0 <= i < file.pieces.len() ==> order.contains((#[trigger] file.pieces[i]).0 as int)
            && file.pieces[i].1 == parts[file.pieces[i].0 as int]
}

proof fn lemma_after_parts(
    files: Map<Seq<char>, OtaFileModel>,
    name: Seq<char>,
    parts: Seq<Seq<u8>>,
    order: Seq<int>,
)
    requires
        !files.contains_key(name),
        0 < parts.len() <= usize::MAX,
        order.no_duplicates(),
        forall|k: int| 0 <= k < order.len() ==> 0 <= #[trigger] order[k] < parts.len(),
    ensures
        holds_parts(after_parts(files, name, parts, order), name, parts, order),
        order.len() > 0 ==> after_parts(files, name, parts, order).contains_key(name),
        after_parts(files, name, parts, order).remove(name) == files,
    decreases order.len(),
{
    let after = after_parts(files, name, parts, order);
    if order.len() == 0 {
        assert(files.remove(name) =~= files);
    } else {
        let earlier = order.drop_last();
        assert forall|k: int| 0 <= k < earlier.len() implies 0 <= #[trigger] earlier[k]
            < parts.len() by {
            assert(earlier[k] == order[k]);
        }
        lemma_after_parts(files, name, parts, earlier);
        let before = after_parts(files, name, parts, earlier);
        let i = order.last();
        assert(i == order[order.len() - 1]);
        let file = file_of(before, pushed_part(name, parts, 0));
        let index = i as usize;
        assert(file == file_of(before, pushed_part(name, parts, i)));
        assert(!earlier.contains(i)) by {
            if earlier.contains(i) {
                let k = choose|k: int| 0 <= k < earlier.len() && earlier[k] == i;
                assert(order[k] == order[order.len() - 1]);
            }
        }
        lemma_with_new_piece(file, index, parts[i]);
        let at = lemma_place(file.pieces, index);
        lemma_placed(file.pieces, index, parts[i], at);
        let now = file.with_piece(index, parts[i]);
        assert(after[name] == now);
        assert forall|k: int| 0 <= k < now.pieces.len() implies order.contains(
            (#[trigger] now.pieces[k]).0 as int,
        ) && now.pieces[k].1 == parts[now.pieces[k].0 as int] by {
            if k == at {
                assert(now.pieces[k] == (index, parts[i]));
            } else {
                let old = if k < at {
                    k
                } else {
                    k - 1
                };
                assert(now.pieces[k] == file.pieces[old]);
                let place = choose|q: int|
                    0 <= q < earlier.len() && earlier[q] == file.pieces[old].0 as int;
                assert(order[place] == earlier[place]);
            }
        }
        assert(after.remove(name) =~= before.remove(name));
    }
}

/// A file that is pushed in parts of any lengths, in any order, is handed out with the last part
/// to come and not before, under its name, and its bytes are those of the parts, one after the
/// other: none is missing and none is added. The other files stay as they are.
pub proof fn law_pushed_parts_make_the_file(
    files: Map<Seq<char>, OtaFileModel>,
    name: Seq<char>,
    parts: Seq<Seq<u8>>,
    order: Seq<int>,
    k: int,
)
    requires
        !files.contains_key(name),
        0 < parts.len() <= usize::MAX,
        order.len() == parts.len(),
        order.no_duplicates(),
        forall|k: int| 0 <= k < order.len() ==> 0 <= #[trigger] order[k] < parts.len(),
        0 <= k < order.len(),
    ensures
        ({
            let before = after_parts(files, name, parts, order.take(k));
            let handed_out = file_completed(before, pushed_part(name, parts, order[k]));
            if k + 1 < order.len() {
                handed_out is None
            } else {
                handed_out == Some(
                    FileWriteModel { path: "/tmp/"@ + name, data: parts.flatten() },
                )
            }
        }),
        after_parts(files, name, parts, order).remove(name) == files,
{
    let earlier = order.take(k);
    let so_far = order.take(k + 1);
    assert(so_far.drop_last() =~= earlier);
    assert(so_far.last() == order[k]);
    assert forall|q: int| 0 <= q < so_far.len() implies 0 <= #[trigger] so_far[q]
        < parts.len() by {
        assert(so_far[q] == order[q]);
    }
    assert forall|q: int| 0 <= q < earlier.len() implies 0 <= #[trigger] earlier[q]
        < parts.len() by {
        assert(earlier[q] == order[q]);
    }
    lemma_after_parts(files, name, parts, earlier);
    lemma_after_parts(files, name, parts, so_far);
    lemma_after_parts(files, name, parts, order);
    let before = after_parts(files, name, parts, earlier);
    let c = pushed_part(name, parts, order[k]);
    let after = files_after(before, c);
    assert(after == after_parts(files, name, parts, so_far));
    assert(file_of(before, c) == file_of(before, pushed_part(name, parts, 0)));
    let file = file_of(after, pushed_part(name, parts, 0));
    assert(file.pieces == placed(file_of(before, c).pieces, c.index, c.data));
    if k + 1 == order.len() {
        law_full_file_has_every_chunk(file);
        law_file_is_its_chunks(file.pieces);
        assert forall|i: int| 0 <= i < parts.len() implies #[trigger] file.pieces[i].1
            == parts[i] by {
            assert(file.pieces[i].0 == i);
        }
        assert(file.pieces.map_values(|p: (usize, Seq<u8>)| p.1) =~= parts);
    }
}

/// A file that the phone sent whole, or what is wrong with what it sent.
pub open spec fn download_result(result: JsonModel) -> Result<FileWriteModel, ErrorModel> {
    match result.text_field("data"@) {
        None => Err(ErrorModel::Config("Missing file data"@)),
        Some(encoded) => match buffer::base64_decoded(encode_utf8(encoded)) {
            Ok(bytes) => Ok(
                FileWriteModel {
                    path: "/tmp/"@ + text_or(result, "fileName"@, "nocturne-update.swu"@),
                    data: bytes,
                },
            ),
            Err(fault) => Err(ErrorModel::Config("Failed to decode base64: "@ + fault)),
        },
    }
}

/// Reads a file that the phone sent whole.
pub fn handle_ota_download_result(result: &Json) -> (r: Result<FileWrite, NocturnedError>)
    ensures
        match r {
            Ok(file) => download_result(result@) == Ok::<FileWriteModel, ErrorModel>(file@),
            Err(e) => download_result(result@) == Err::<FileWriteModel, ErrorModel>(e@),
        },
{
    let file_name = get_text_or(result, "fileName", "nocturne-update.swu");
    let encoded = match result.get_str("data") {
        Some(s) => s,
        None => return Err(NocturnedError::config("Missing file data")),
    };
    match buffer::base64_decode(encoded.as_bytes()) {
        Ok(data) => Ok(FileWrite { path: text::joined("/tmp/", file_name.as_str()), data }),
        Err(fault) => Err(
            NocturnedError::config_with("Failed to decode base64: ", fault.as_str()),
        ),
    }
}

/// A package that the phone holds ready.
#[derive(Debug)]
pub struct OtaPackageInfo {
    pub name: String,
    pub version: String,
    pub hash: String,
    pub size: u64,
}

/// A package, apart from how it is stored.
pub struct OtaPackageModel {
    pub name: Seq<char>,
    pub version: Seq<char>,
    pub hash: Seq<char>,
    pub size: u64,
}

impl View for OtaPackageInfo {
    type V = OtaPackageModel;

    open spec fn view(&self) -> OtaPackageModel {
        OtaPackageModel {
            name: self.name@,
            version: self.version@,
            hash: self.hash@,
            size: self.size,
        }
    }
}

impl Clone for OtaPackageInfo {
    fn clone(&self) -> (r: OtaPackageInfo)
        ensures
            r@ == self@,
    {
        OtaPackageInfo {
            name: self.name.clone(),
            version: self.version.clone(),
            hash: self.hash.clone(),
            size: self.size,
        }
    }
}

/// The package that a state message announces, none in other states, or what is missing.
pub open spec fn package_state(data: JsonModel) -> Result<Option<OtaPackageModel>, ErrorModel> {
    match data.text_field("state"@) {
        None => Err(ErrorModel::Config("Missing state"@)),
        Some(state) => if state != "download_success"@ {
            Ok(None)
        } else {
            match (
                data.text_field("version"@),
                data.text_field("hash"@),
                data.unsigned_field("size"@),
            ) {
                (None, _, _) => Err(ErrorModel::Config("Missing version"@)),
                (_, None, _) => Err(ErrorModel::Config("Missing hash"@)),
                (_, _, None) => Err(ErrorModel::Config("Missing size"@)),
                (Some(version), Some(hash), Some(size)) => Ok(
                    Some(
                        OtaPackageModel {
                            name: text_or(data, "name"@, "nocturne-os"@),
                            version,
                            hash,
                            size,
                        },
                    ),
                ),
            }
        },
    }
}

/// Reads the package that a state message announces.
pub fn handle_package_state(data: &Json) -> (r: Result<Option<OtaPackageInfo>, NocturnedError>)
    ensures
        match r {
            Ok(Some(p)) => package_state(data@) == Ok::<Option<OtaPackageModel>, ErrorModel>(
                Some(p@),
            ),
            Ok(None) => package_state(data@) == Ok::<Option<OtaPackageModel>, ErrorModel>(None),
            Err(e) => package_state(data@) == Err::<Option<OtaPackageModel>, ErrorModel>(e@),
        },
{
    let state = match data.get_str("state") {
        Some(s) => s,
        None => return Err(NocturnedError::config("Missing state")),
    };
    if !text::same(state, "download_success") {
        return Ok(None);
    }
    let name = get_text_or(data, "name", "nocturne-os");
    let version = match data.get_str("version") {
        Some(s) => s.to_owned(),
        None => return Err(NocturnedError::config("Missing version")),
    };
    let hash = match data.get_str("hash") {
        Some(s) => s.to_owned(),
        None => return Err(NocturnedError::config("Missing hash")),
    };
    let size: u64 = match data.get_u64("size") {
        Some(n) => n,
        None => return Err(NocturnedError::config("Missing size")),
    };
    Ok(Some(OtaPackageInfo { name, version, hash, size }))
}

/// Where a downloaded package is written.
pub const UPDATE_PATH: &'static str = "/tmp/nocturne-update.swu";

/// The download of a package, range by range.
#[derive(Debug)]
pub struct OtaDownload {
    package: OtaPackageInfo,
    next: usize,
    data: Vec<u8>,
}

/// A download, apart from how it is stored.
#[verifier::ext_equal]
pub struct DownloadModel {
    pub package: OtaPackageModel,
    pub next: nat,
    pub data: Seq<u8>,
}

impl View for OtaDownload {
    type V = DownloadModel;

    closed spec fn view(&self) -> DownloadModel {
        DownloadModel { package: self.package@, next: self.next as nat, data: self.data@ }
    }
}

/// How many ranges a package of some size is asked for in.
pub open spec fn range_count(size: u64) -> nat {
    ((size + OTA_CHUNK_SIZE - 1) / OTA_CHUNK_SIZE as int) as nat
}

/// Where range `i` begins.
pub open spec fn range_offset(i: nat) -> nat {
    i * OTA_CHUNK_SIZE as nat
}

/// How long range `i` is.
pub open spec fn range_len(size: u64, i: nat) -> nat {
    if size - range_offset(i) < OTA_CHUNK_SIZE {
        (size - range_offset(i)) as nat
    } else {
        OTA_CHUNK_SIZE as nat
    }
}

/// The parameters of the request for a range.
pub open spec fn range_request(package: OtaPackageModel, i: nat) -> JsonModel {
    JsonModel::table().and("name"@, JsonModel::Text(package.name)).and(
        "offset"@,
        JsonModel::Number(JsonNumber::Unsigned(range_offset(i) as u64)),
    ).and(
        "size"@,
        JsonModel::Number(JsonNumber::Unsigned(range_len(package.size, i) as u64)),
    ).and("version"@, JsonModel::Text(package.version))
}

/// The numbers of a list as bytes, none where something else stands in it.
pub open spec fn listed_bytes(items: Seq<JsonModel>) -> Option<Seq<u8>>
    decreases items.len(),
{
    if items.len() == 0 {
        Some(Seq::empty())
    } else {
        match (listed_bytes(items.drop_last()), items.last().unsigned()) {
            (Some(bytes), Some(n)) => Some(bytes.push(n as u8)),
            _ => None,
        }
    }
}

/// The bytes that an answer carries, as a list of numbers or in base64, or what is wrong with it.
pub open spec fn answer_bytes(result: JsonModel) -> Result<Seq<u8>, ErrorModel> {
    match result.field("data"@) {
        None => Err(ErrorModel::Config("Missing chunk data in response"@)),
        Some(JsonModel::List(items)) => match listed_bytes(items) {
            Some(bytes) => Ok(bytes),
            None => Err(ErrorModel::Config("Invalid byte value in chunk data array"@)),
        },
        Some(JsonModel::Text(encoded)) => match buffer::base64_decoded(encode_utf8(encoded)) {
            Ok(bytes) => Ok(bytes),
            Err(fault) => Err(ErrorModel::Config("Failed to decode base64 chunk: "@ + fault)),
        },
        Some(_) => Err(ErrorModel::Config("Chunk data is neither array nor string"@)),
    }
}

/// What is wrong with an answer of another length than was asked for.
pub open spec fn size_mismatch(expected: nat, got: nat) -> ErrorModel {
    ErrorModel::Config(
        "Chunk size mismatch: expected "@ + text::decimal(expected) + ", got "@ + text::decimal(got),
    )
}

/// The bytes that range `i` brings, or what is wrong with the answer.
pub open spec fn range_bytes(size: u64, i: nat, result: JsonModel) -> Result<Seq<u8>, ErrorModel> {
    match answer_bytes(result) {
        Err(e) => Err(e),
        Ok(bytes) => if bytes.len() != range_len(size, i) {
            Err(size_mismatch(range_len(size, i), bytes.len()))
        } else {
            Ok(bytes)
        },
    }
}

/// What the clients are told once range `i` is there.
pub open spec fn progress_event(size: u64, i: nat) -> JsonModel {
    JsonModel::table().and(
        "chunk_index"@,
        JsonModel::Number(JsonNumber::Unsigned(i as u64)),
    ).and(
        "total_chunks"@,
        JsonModel::Number(JsonNumber::Unsigned(range_count(size) as u64)),
    ).and(
        "percent"@,
        JsonModel::Number(JsonNumber::Unsigned((i * 100 / range_count(size)) as u64)),
    )
}

/// What the clients are told where the package is not what was announced.
pub open spec fn hash_mismatch_event(expected: Seq<char>, actual: Seq<char>) -> JsonModel {
    JsonModel::table().and("message"@, JsonModel::Text("MD5 hash mismatch"@)).and(
        "expected"@,
        JsonModel::Text(expected),
    ).and("actual"@, JsonModel::Text(actual))
}

impl DownloadModel {
    /// The bytes of the first ranges are there, and no others.
    pub open spec fn well_formed(self) -> bool {
        &&& self.next <= range_count(self.package.size)
        &&& self.data.len() == if self.next == range_count(self.package.size) {
            self.package.size as nat
        } else {
            range_offset(self.next)
        }
        &&& self.package.size <= usize::MAX
    }

    /// Whether every range is there.
    pub open spec fn complete(self) -> bool {
        self.next == range_count(self.package.size)
    }

    /// What comes of a complete download: the file that is written where it has the digest that was
    /// announced, and otherwise what the clients are told, and the failure.
    pub open spec fn verdict(self) -> Result<FileWriteModel, (JsonModel, ErrorModel)> {
        let digest = buffer::md5_hex(self.data);
        if digest == self.package.hash {
            Ok(FileWriteModel { path: UPDATE_PATH@, data: self.data })
        } else {
            Err(
                (
                    hash_mismatch_event(self.package.hash, digest),
                    ErrorModel::Config("MD5 hash verification failed"@),
                ),
            )
        }
    }

    /// The download with the bytes of one more range.
    pub open spec fn with_range(self, bytes: Seq<u8>) -> DownloadModel {
        DownloadModel { next: self.next + 1, data: self.data + bytes, ..self }
    }
}

proof fn lemma_range(size: u64, i: nat)
    requires
        i < range_count(size),
    ensures
        range_offset(i) < size,
        range_offset(i) + range_len(size, i) == if i + 1 == range_count(size) {
            size as nat
        } else {
            range_offset(i + 1)
        },
        range_len(size, i) <= OTA_CHUNK_SIZE,
        i * 100 <= size,
{
}

/// The ranges that are asked for lie end to end from the beginning of the package to its end, and
/// each is of some length.
pub proof fn law_ranges_tile_the_package(size: u64, i: nat)
    ensures
        range_offset(0) == 0,
        i < range_count(size) ==> 0 < range_len(size, i) <= OTA_CHUNK_SIZE,
        i + 1 < range_count(size) ==> range_offset(i) + range_len(size, i) == range_offset(i + 1),
        i + 1 == range_count(size) ==> range_offset(i) + range_len(size, i) == size,
        range_count(size) == 0 <==> size == 0,
{
    if i < range_count(size) {
        lemma_range(size, i);
    }
}

/// A complete download holds as many bytes as the package was announced with.
pub proof fn law_complete_download_has_the_announced_size(d: DownloadModel)
    requires
        d.well_formed(),
        d.complete(),
    ensures
        d.data.len() == d.package.size,
{
}

/// Reads a list of numbers as bytes.
fn read_listed_bytes(items: &Vec<Json>) -> (r: Option<Vec<u8>>)
    ensures
        match r {
            Some(bytes) => listed_bytes(Json::List(*items)@->List_0) == Some(bytes@),
            None => listed_bytes(Json::List(*items)@->List_0) is None,
        },
{
    let ghost model = Json::List(*items)@->List_0;
    let mut out: Vec<u8> = Vec::new();
    let mut i: usize = 0;
    assert(model.take(0) =~= Seq::empty());
    while i < items.len()
        invariant
            i <= items.len(),
            model == Json::List(*items)@->List_0,
            model.len() == items@.len(),
            forall|k: int| 0 <= k < items@.len() ==> #[trigger] model[k] == items@[k]@,
            listed_bytes(model.take(i as int)) == Some(out@),
        decreases items.len() - i,
    {
        let ghost next = model.take(i + 1);
        assert(next.drop_last() =~= model.take(i as int));
        assert(next.last() == items@[i as int]@);
        match items[i].as_u64() {
            Some(n) => {
                out.push(n as u8);
            },
            None => {
                proof {
                    lemma_listed_none(model, i + 1);
                }
                return None;
            },
        }
        i += 1;
    }
    assert(model.take(i as int) =~= model);
    Some(out)
}

proof fn lemma_listed_none(items: Seq<JsonModel>, k: int)
    requires
        0 <= k <= items.len(),
        listed_bytes(items.take(k)) is None,
    ensures
        listed_bytes(items) is None,
    decreases items.len() - k,
{
    if k == items.len() {
        assert(items.take(k) =~= items);
    } else {
        assert(items.take(k + 1).drop_last() =~= items.take(k));
        lemma_listed_none(items, k + 1);
    }
}

/// Reads the bytes that an answer carries.
pub fn read_answer(result: &Json) -> (r: Result<Vec<u8>, NocturnedError>)
    ensures
        match r {
            Ok(bytes) => answer_bytes(result@) == Ok::<Seq<u8>, ErrorModel>(bytes@),
            Err(e) => answer_bytes(result@) == Err::<Seq<u8>, ErrorModel>(e@),
        },
{
    match result.get("data") {
        None => Err(NocturnedError::config("Missing chunk data in response")),
        Some(value) => match value {
            Json::List(items) => match read_listed_bytes(items) {
                Some(bytes) => Ok(bytes),
                None => Err(NocturnedError::config("Invalid byte value in chunk data array")),
            },
            Json::Text(encoded) => match buffer::base64_decode(encoded.as_str().as_bytes()) {
                Ok(bytes) => Ok(bytes),
                Err(fault) => Err(
                    NocturnedError::config_with("Failed to decode base64 chunk: ", fault.as_str()),
                ),
            },
            _ => Err(NocturnedError::config("Chunk data is neither array nor string")),
        },
    }
}

impl OtaDownload {
    /// The download of a package of which nothing is there yet.
    pub fn new(package: OtaPackageInfo) -> (r: OtaDownload)
        requires
            package.size <= usize::MAX,
        ensures
            r@ == (DownloadModel { package: package@, next: 0, data: Seq::empty() }),
            r@.well_formed(),
    {
        let r = OtaDownload { package, next: 0, data: Vec::new() };
        assert(r@ =~= DownloadModel { package: package@, next: 0, data: Seq::empty() });
        r
    }

    /// How many ranges the package is asked for in.
    pub fn total_chunks(&self) -> (r: usize)
        requires
            self@.well_formed(),
        ensures
            r == range_count(self@.package.size),
    {
        let size: usize = self.package.size as usize;
        let whole: usize = size / OTA_CHUNK_SIZE;
        if size % OTA_CHUNK_SIZE == 0 {
            whole
        } else {
            whole + 1
        }
    }

    fn range(&self) -> (r: (usize, usize))
        requires
            self@.well_formed(),
            !self@.complete(),
        ensures
            r.0 == range_offset(self@.next),
            r.1 == range_len(self@.package.size, self@.next),
    {
        proof {
            lemma_range(self.package.size, self.next as nat);
        }
        let offset: usize = self.next * OTA_CHUNK_SIZE;
        let left: usize = self.package.size as usize - offset;
        let len: usize = if left < OTA_CHUNK_SIZE {
            left
        } else {
            OTA_CHUNK_SIZE
        };
        (offset, len)
    }

    /// The parameters of the next request, none once every range is there.
    pub fn next_request(&self) -> (r: Option<Json>)
        requires
            self@.well_formed(),
        ensures
            match r {
                Some(params) => !self@.complete() && params@ == range_request(
                    self@.package,
                    self@.next,
                ),
                None => self@.complete(),
            },
    {
        if self.next == self.total_chunks() {
            return None;
        }
        let (offset, len): (usize, usize) = self.range();
        Some(
            Json::table().and("name", Json::text(self.package.name.as_str())).and(
                "offset",
                Json::unsigned(offset as u64),
            ).and("size", Json::unsigned(len as u64)).and(
                "version",
                Json::text(self.package.version.as_str()),
            ),
        )
    }

    /// Takes in the answer to the request for the next range, and says what the clients are told.
    pub fn accept(&mut self, result: &Json) -> (r: Result<Json, NocturnedError>)
        requires
            old(self)@.well_formed(),
            !old(self)@.complete(),
        ensures
            final(self)@.well_formed(),
            match r {
                Ok(progress) => {
                    &&& range_bytes(old(self)@.package.size, old(self)@.next, result@) matches Ok(
                        bytes,
                    )
                    &&& final(self)@ == old(self)@.with_range(bytes)
                    &&& progress@ == progress_event(old(self)@.package.size, old(self)@.next)
                },
                Err(e) => {
                    &&& range_bytes(old(self)@.package.size, old(self)@.next, result@) == Err::<
                        Seq<u8>,
                        ErrorModel,
                    >(e@)
                    &&& final(self)@ == old(self)@
                },
            },
    {
        let bytes = match read_answer(result) {
            Ok(bytes) => bytes,
            Err(e) => return Err(e),
        };
        let (_, len): (usize, usize) = self.range();
        if bytes.len() != len {
            let expected = text::decimal_text(len as u64);
            let got = text::decimal_text(bytes.len() as u64);
            let mut message = text::joined("Chunk size mismatch: expected ", expected.as_str());
            message.append(", got ");
            message.append(got.as_str());
            return Err(NocturnedError::Config(message));
        }
        proof {
            lemma_range(self.package.size, self.next as nat);
        }
        let ghost before = self@;
        let index: usize = self.next;
        let total: usize = self.total_chunks();
        append_bytes(&mut self.data, &bytes);
        self.next = index + 1;
        assert(self@ =~= before.with_range(bytes@));
        Ok(
            Json::table().and("chunk_index", Json::unsigned(index as u64)).and(
                "total_chunks",
                Json::unsigned(total as u64),
            ).and("percent", Json::unsigned((index * 100 / total) as u64)),
        )
    }

    /// Holds a complete download against the digest that was announced: the bytes to write, or
    /// what the clients are told where it does not match.
    pub fn verify(&self) -> (r: Result<FileWrite, (Json, NocturnedError)>)
        requires
            self@.well_formed(),
            self@.complete(),
        ensures
            match r {
                Ok(file) => buffer::md5_hex(self@.data) == self@.package.hash && file@ == (
                FileWriteModel { path: UPDATE_PATH@, data: self@.data }),
                Err((event, e)) => {
                    &&& buffer::md5_hex(self@.data) != self@.package.hash
                    &&& event@ == hash_mismatch_event(
                        self@.package.hash,
                        buffer::md5_hex(self@.data),
                    )
                    &&& e@ == ErrorModel::Config("MD5 hash verification failed"@)
                },
            },
            match r {
                Ok(file) => self@.verdict() == Ok::<FileWriteModel, (JsonModel, ErrorModel)>(file@),
                Err((event, e)) => self@.verdict() == Err::<
                    FileWriteModel,
                    (JsonModel, ErrorModel),
                >((event@, e@)),
            },
    {
        let actual = compute_md5(self.data.as_slice());
        if text::same(actual.as_str(), self.package.hash.as_str()) {
            let mut data: Vec<u8> = Vec::new();
            append_bytes(&mut data, &self.data);
            assert(data@ =~= self.data@);
            Ok(FileWrite { path: UPDATE_PATH.to_owned(), data })
        } else {
            Err(
                (
                    Json::table().and("message", Json::text("MD5 hash mismatch")).and(
                        "expected",
                        Json::text(self.package.hash.as_str()),
                    ).and("actual", Json::text(actual.as_str())),
                    NocturnedError::config("MD5 hash verification failed"),
                ),
            )
        }
    }
}

/// The digest of some bytes in hexadecimal digits.
pub fn compute_md5(data: &[u8]) -> (r: String)
    ensures
        r@ == buffer::md5_hex(data@),
{
    buffer::md5_text(data)
}

/// What a message says of a chunk is what is taken in, the bytes decoded.
pub proof fn law_chunk_is_what_the_message_says(
    data: JsonModel,
    index: u64,
    total: u64,
    encoded: Seq<char>,
    bytes: Seq<u8>,
)
    requires
        data.unsigned_field("chunk_index"@) == Some(index),
        data.unsigned_field("total_chunks"@) == Some(total),
        data.text_field("data"@) == Some(encoded),
        buffer::base64_decoded(encode_utf8(encoded)) == Ok::<Seq<u8>, Seq<char>>(bytes),
        index <= usize::MAX,
        total <= usize::MAX,
    ensures
        chunk_message(data) matches Ok(c) && c.index == index && c.total == total && c.data == bytes
            && (data.text_field("file_name"@) matches Some(name) ==> c.file_name == name),
{
}

/// A file that was sent whole is written under its name with the bytes that were sent.
pub proof fn law_whole_file_is_written(
    result: JsonModel,
    encoded: Seq<char>,
    name: Seq<char>,
    bytes: Seq<u8>,
)
    requires
        result.text_field("data"@) == Some(encoded),
        result.text_field("fileName"@) == Some(name),
        buffer::base64_decoded(encode_utf8(encoded)) == Ok::<Seq<u8>, Seq<char>>(bytes),
    ensures
        download_result(result) matches Ok(file) && file.data == bytes && file.path == "/tmp/"@
            + name,
{
}

/// A package is announced only by a message that says that it is there in full, and it is what that
/// message says.
pub proof fn law_package_is_what_was_announced(data: JsonModel)
    ensures
        package_state(data) matches Ok(Some(p)) ==> {
            &&& data.text_field("state"@) == Some("download_success"@)
            &&& data.text_field("version"@) == Some(p.version)
            &&& data.text_field("hash"@) == Some(p.hash)
            &&& data.unsigned_field("size"@) == Some(p.size)
            &&& data.text_field("name"@) is Some ==> data.text_field("name"@) == Some(p.name)
        },
        data.text_field("state"@) == Some("download_success"@) && data.text_field("version"@)
            is Some && data.text_field("hash"@) is Some && data.unsigned_field("size"@) is Some
            ==> (package_state(data) matches Ok(p) && p is Some),
{
}

/// Bytes that come as a list of their numbers are read as they are.
pub proof fn law_listed_bytes_read_back(bytes: Seq<u8>)
    ensures
        listed_bytes(
            bytes.map_values(|b: u8| JsonModel::Number(JsonNumber::Unsigned(b as u64))),
        ) == Some(bytes),
    decreases bytes.len(),
{
    let items = bytes.map_values(|b: u8| JsonModel::Number(JsonNumber::Unsigned(b as u64)));
    if bytes.len() > 0 {
        law_listed_bytes_read_back(bytes.drop_last());
        assert(items.drop_last() =~= bytes.drop_last().map_values(
            |b: u8| JsonModel::Number(JsonNumber::Unsigned(b as u64)),
        ));
        assert(bytes =~= bytes.drop_last().push(bytes.last()));
    }
}

/// An answer is taken as the bytes that it carries, in either form, where they are as many as were
/// asked for, and not otherwise.
pub proof fn law_answer_is_taken_as_it_is(size: u64, i: nat, result: JsonModel, bytes: Seq<u8>)
    ensures
        result.field("data"@) == Some(
            JsonModel::List(
                bytes.map_values(|b: u8| JsonModel::Number(JsonNumber::Unsigned(b as u64))),
            ),
        ) ==> answer_bytes(result) == Ok::<Seq<u8>, ErrorModel>(bytes),
        (result.text_field("data"@) matches Some(encoded) && buffer::base64_decoded(
            encode_utf8(encoded),
        ) == Ok::<Seq<u8>, Seq<char>>(bytes)) ==> answer_bytes(result) == Ok::<
            Seq<u8>,
            ErrorModel,
        >(bytes),
        range_bytes(size, i, result) matches Ok(taken) ==> answer_bytes(result) == Ok::<
            Seq<u8>,
            ErrorModel,
        >(taken) && taken.len() == range_len(size, i),
        answer_bytes(result) == Ok::<Seq<u8>, ErrorModel>(bytes) && bytes.len() == range_len(
            size,
            i,
        ) ==> range_bytes(size, i, result) == Ok::<Seq<u8>, ErrorModel>(bytes),
{
    law_listed_bytes_read_back(bytes);
}

/// The download once the first `n` ranges of a package came.
pub open spec fn after_ranges(package: OtaPackageModel, bytes: Seq<u8>, n: nat) -> DownloadModel
    decreases n,
{
    if n == 0 {
        DownloadModel { package, next: 0, data: Seq::empty() }
    } else {
        let i = (n - 1) as nat;
        after_ranges(package, bytes, i).with_range(
            bytes.subrange(
                range_offset(i) as int,
                range_offset(i) as int + range_len(package.size, i),
            ),
        )
    }
}

/// A package whose ranges come as they are asked for, one after the other, is there byte by byte in
/// the end, and until then as far as its ranges came.
pub proof fn law_download_is_the_package(package: OtaPackageModel, bytes: Seq<u8>, n: nat)
    requires
        bytes.len() == package.size,
        package.size <= usize::MAX,
        n <= range_count(package.size),
    ensures
        after_ranges(package, bytes, n).well_formed(),
        after_ranges(package, bytes, n).package == package,
        after_ranges(package, bytes, n).next == n,
        after_ranges(package, bytes, n).data == bytes.take(
            if n == range_count(package.size) {
                bytes.len() as int
            } else {
                range_offset(n) as int
            },
        ),
        n == range_count(package.size) ==> after_ranges(package, bytes, n).complete()
            && after_ranges(package, bytes, n).data == bytes,
    decreases n,
{
    let d = after_ranges(package, bytes, n);
    assert(bytes.take(bytes.len() as int) =~= bytes);
    assert(bytes.take(0) =~= Seq::empty());
    if n > 0 {
        let i = (n - 1) as nat;
        law_download_is_the_package(package, bytes, i);
        lemma_range(package.size, i);
        let from = range_offset(i) as int;
        let to = from + range_len(package.size, i);
        assert(bytes.take(from) + bytes.subrange(from, to) =~= bytes.take(to));
    }
}

/// The request for a range names the package, and asks for the range.
pub proof fn law_request_asks_for_the_range(package: OtaPackageModel, i: nat)
    requires
        i < range_count(package.size),
    ensures
        range_request(package, i).text_field("name"@) == Some(package.name),
        range_request(package, i).text_field("version"@) == Some(package.version),
        range_request(package, i).unsigned_field("offset"@) matches Some(n) && n == i * 1800,
        range_request(package, i).unsigned_field("size"@) matches Some(n) && n == if (i + 1) * 1800
            < package.size {
            1800
        } else {
            package.size - i * 1800
        },
{
    lemma_range(package.size, i);
    reveal_strlit("name");
    reveal_strlit("offset");
    reveal_strlit("size");
    reveal_strlit("version");
    assert("name"@.len() == 4 && "offset"@.len() == 6 && "size"@.len() == 4);
    assert("version"@.len() == 7);
    assert("name"@[0] != "size"@[0]);
    let d0 = JsonModel::table();
    crate::json::law_bare_object_has_no_member("name"@);
    crate::json::law_bare_object_has_no_member("offset"@);
    crate::json::law_bare_object_has_no_member("size"@);
    crate::json::law_bare_object_has_no_member("version"@);
    crate::json::law_member_is_found(d0, "name"@, JsonModel::Text(package.name));
    let d1 = d0.and("name"@, JsonModel::Text(package.name));
    crate::json::law_member_is_found(
        d1,
        "offset"@,
        JsonModel::Number(JsonNumber::Unsigned(range_offset(i) as u64)),
    );
    let d2 = d1.and("offset"@, JsonModel::Number(JsonNumber::Unsigned(range_offset(i) as u64)));
    crate::json::law_member_is_found(
        d2,
        "size"@,
        JsonModel::Number(JsonNumber::Unsigned(range_len(package.size, i) as u64)),
    );
    let d3 = d2.and(
        "size"@,
        JsonModel::Number(JsonNumber::Unsigned(range_len(package.size, i) as u64)),
    );
    crate::json::law_member_is_found(d3, "version"@, JsonModel::Text(package.version));
    let d4 = d3.and("version"@, JsonModel::Text(package.version));
    assert(range_request(package, i) == d4);
}

/// The clients are told which range came, of how many, and how many in a hundred that makes.
pub proof fn law_progress_is_told(size: u64, i: nat)
    requires
        i < range_count(size),
    ensures
        progress_event(size, i).unsigned_field("chunk_index"@) matches Some(n) && n == i,
        progress_event(size, i).unsigned_field("total_chunks"@) matches Some(n) && n == range_count(
            size,
        ),
        progress_event(size, i).unsigned_field("percent"@) matches Some(p) && p < 100 && p
            * range_count(size) <= 100 * i < (p + 1) * range_count(size),
{
    lemma_range(size, i);
    let count = range_count(size);
    let percent = i * 100 / count;
    assert(percent * count <= 100 * i < (percent + 1) * count && percent < 100) by (nonlinear_arith)
        requires
            percent == i * 100 / count,
            i < count,
    ;
    reveal_strlit("chunk_index");
    reveal_strlit("total_chunks");
    reveal_strlit("percent");
    assert("chunk_index"@.len() == 11 && "total_chunks"@.len() == 12 && "percent"@.len() == 7);
    let d0 = JsonModel::table();
    crate::json::law_bare_object_has_no_member("chunk_index"@);
    crate::json::law_bare_object_has_no_member("total_chunks"@);
    crate::json::law_bare_object_has_no_member("percent"@);
    crate::json::law_member_is_found(
        d0,
        "chunk_index"@,
        JsonModel::Number(JsonNumber::Unsigned(i as u64)),
    );
    let d1 = d0.and("chunk_index"@, JsonModel::Number(JsonNumber::Unsigned(i as u64)));
    crate::json::law_member_is_found(
        d1,
        "total_chunks"@,
        JsonModel::Number(JsonNumber::Unsigned(count as u64)),
    );
    let d2 = d1.and("total_chunks"@, JsonModel::Number(JsonNumber::Unsigned(count as u64)));
    crate::json::law_member_is_found(
        d2,
        "percent"@,
        JsonModel::Number(JsonNumber::Unsigned(percent as u64)),
    );
    let d3 = d2.and("percent"@, JsonModel::Number(JsonNumber::Unsigned(percent as u64)));
    assert(progress_event(size, i) == d3);
}

/// The clients are told where a file was written and how long it is.
pub proof fn law_written_file_is_told(path: Seq<char>, size: nat)
    requires
        size <= u64::MAX,
    ensures
        complete_event(path, size).text_field("status"@) == Some("complete"@),
        complete_event(path, size).text_field("file_path"@) == Some(path),
        complete_event(path, size).unsigned_field("size"@) matches Some(n) && n == size,
{
    reveal_strlit("status");
    reveal_strlit("file_path");
    reveal_strlit("size");
    assert("status"@.len() == 6 && "file_path"@.len() == 9 && "size"@.len() == 4);
    let d0 = JsonModel::table();
    crate::json::law_bare_object_has_no_member("status"@);
    crate::json::law_bare_object_has_no_member("file_path"@);
    crate::json::law_bare_object_has_no_member("size"@);
    crate::json::law_member_is_found(d0, "status"@, JsonModel::Text("complete"@));
    let d1 = d0.and("status"@, JsonModel::Text("complete"@));
    crate::json::law_member_is_found(d1, "file_path"@, JsonModel::Text(path));
    let d2 = d1.and("file_path"@, JsonModel::Text(path));
    crate::json::law_member_is_found(
        d2,
        "size"@,
        JsonModel::Number(JsonNumber::Unsigned(size as u64)),
    );
    let d3 = d2.and("size"@, JsonModel::Number(JsonNumber::Unsigned(size as u64)));
    assert(complete_event(path, size) == d3);
}

/// Where a package is not what was announced, the clients are told both digests.
pub proof fn law_both_digests_are_told(expected: Seq<char>, actual: Seq<char>)
    ensures
        hash_mismatch_event(expected, actual).text_field("expected"@) == Some(expected),
        hash_mismatch_event(expected, actual).text_field("actual"@) == Some(actual),
{
    reveal_strlit("message");
    reveal_strlit("expected");
    reveal_strlit("actual");
    assert("message"@.len() == 7 && "expected"@.len() == 8 && "actual"@.len() == 6);
    let d0 = JsonModel::table();
    crate::json::law_bare_object_has_no_member("message"@);
    crate::json::law_bare_object_has_no_member("expected"@);
    crate::json::law_bare_object_has_no_member("actual"@);
    crate::json::law_member_is_found(d0, "message"@, JsonModel::Text("MD5 hash mismatch"@));
    let d1 = d0.and("message"@, JsonModel::Text("MD5 hash mismatch"@));
    crate::json::law_member_is_found(d1, "expected"@, JsonModel::Text(expected));
    let d2 = d1.and("expected"@, JsonModel::Text(expected));
    crate::json::law_member_is_found(d2, "actual"@, JsonModel::Text(actual));
    let d3 = d2.and("actual"@, JsonModel::Text(actual));
    assert(hash_mismatch_event(expected, actual) == d3);
}

/// What is written of a download is all of it, and only where it has the digest that was announced.
/// So a package whose ranges came as they were asked for is written byte by byte.
pub proof fn law_only_the_announced_package_is_written(
    d: DownloadModel,
    package: OtaPackageModel,
    bytes: Seq<u8>,
)
    ensures
        d.verdict() is Ok <==> buffer::md5_hex(d.data) == d.package.hash,
        d.verdict() matches Ok(file) ==> file.data == d.data && file.path
            == "/tmp/nocturne-update.swu"@,
        bytes.len() == package.size && package.size <= usize::MAX && package.hash
            == buffer::md5_hex(bytes) ==> (after_ranges(
            package,
            bytes,
            range_count(package.size),
        ).verdict() matches Ok(file) && file.data == bytes),
{
    if bytes.len() == package.size && package.size <= usize::MAX {
        law_download_is_the_package(package, bytes, range_count(package.size));
    }
}

} // verus!
