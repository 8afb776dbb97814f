//! The boot slots: which of the two systems starts, and the record that says so.
use crate::buffer;
use crate::error::{ErrorModel, NocturnedError};
use crate::json::{Json, JsonModel, JsonNumber};
use vstd::prelude::*;

verus! {

broadcast use crate::json::lemma_json_view;

/// Where the record stands in the partition.
pub const AB_METADATA_MISC_PARTITION_OFFSET: usize = 2048;

/// How much of the partition is read and written.
pub const MISC_BUF_SIZE: usize = 2080;

/// The version of the record.
pub const AB_MAJOR_VERSION: u8 = 1;

/// The minor version of the record.
pub const AB_MINOR_VERSION: u8 = 0;

/// The bytes of the record.
pub const AB_DATA_SIZE: usize = 32;

/// The highest priority of a slot.
pub const AB_MAX_PRIORITY: u8 = 15;

/// The most attempts to start a slot.
pub const AB_MAX_TRIES_REMAINING: u8 = 7;

/// The partition that holds the record.
pub const MISC_DEVICE_PATH: &'static str = "/dev/misc";

/// What the record begins with.
pub const AB_MAGIC: [u8; 4] = [0x00, 0x41, 0x42, 0x30];

/// What is known of a slot.
#[derive(Clone, Copy, Debug, PartialEq, Eq, Structural)]
pub struct ABSlotData {
    pub priority: u8,
    pub tries_remaining: u8,
    pub successful_boot: u8,
    pub reserved: u8,
}

impl Default for ABSlotData {
    fn default() -> (r: ABSlotData)
        ensures
            r == (ABSlotData {
                priority: 0,
                tries_remaining: 0,
                successful_boot: 0,
                reserved: 0,
            }),
    {
        ABSlotData { priority: 0, tries_remaining: 0, successful_boot: 0, reserved: 0 }
    }
}

/// The record of the two slots.
#[derive(Clone, Copy, Debug)]
pub struct ABData {
    pub magic: [u8; 4],
    pub version_major: u8,
    pub version_minor: u8,
    pub reserved1: [u8; 2],
    pub slots: [ABSlotData; 2],
    pub reserved2: [u8; 12],
    pub crc32: u32,
}

/// The record, apart from how it is stored.
#[verifier::ext_equal]
pub struct ABModel {
    pub magic: Seq<u8>,
    pub version_major: u8,
    pub version_minor: u8,
    pub reserved1: Seq<u8>,
    pub slots: Seq<ABSlotData>,
    pub reserved2: Seq<u8>,
    pub crc32: u32,
}

impl View for ABData {
    type V = ABModel;

    open spec fn view(&self) -> ABModel {
        ABModel {
            magic: self.magic@,
            version_major: self.version_major,
            version_minor: self.version_minor,
            reserved1: self.reserved1@,
            slots: self.slots@,
            reserved2: self.reserved2@,
            crc32: self.crc32,
        }
    }
}

/// So many zero bytes.
pub open spec fn zero_bytes(n: nat) -> Seq<u8> {
    Seq::new(n, |i: int| 0u8)
}

impl ABModel {
    /// The parts of the record have their lengths.
    pub open spec fn well_formed(self) -> bool {
        &&& self.magic.len() == 4
        &&& self.reserved1.len() == 2
        &&& self.slots.len() == 2
        &&& self.reserved2.len() == 12
    }

    /// The record is one of this version.
    pub open spec fn valid(self) -> bool {
        self.magic == AB_MAGIC@ && self.version_major <= AB_MAJOR_VERSION
    }

    /// The record that is written where there is none.
    pub open spec fn initial() -> ABModel {
        ABModel {
            magic: AB_MAGIC@,
            version_major: AB_MAJOR_VERSION,
            version_minor: AB_MINOR_VERSION,
            reserved1: zero_bytes(2),
            slots: seq![
                ABSlotData {
                    priority: AB_MAX_PRIORITY,
                    tries_remaining: AB_MAX_TRIES_REMAINING,
                    successful_boot: 0,
                    reserved: 0,
                },
                ABSlotData {
                    priority: (AB_MAX_PRIORITY - 1) as u8,
                    tries_remaining: AB_MAX_TRIES_REMAINING,
                    successful_boot: 0,
                    reserved: 0,
                },
            ],
            reserved2: zero_bytes(12),
            crc32: 0,
        }
    }

    /// The slot that starts: the one with the higher priority, the second where they are equal.
    pub open spec fn active_slot(self) -> int {
        if self.slots[0].priority > self.slots[1].priority {
            0
        } else {
            1
        }
    }

    /// The record once a slot was made the one that starts.
    pub open spec fn with_active(self, slot: int) -> ABModel {
        let other = 1 - slot;
        let chosen = ABSlotData {
            priority: AB_MAX_PRIORITY,
            tries_remaining: AB_MAX_TRIES_REMAINING,
            successful_boot: 0,
            reserved: self.slots[slot].reserved,
        };
        let lowered = if self.slots[other].priority == AB_MAX_PRIORITY {
            ABSlotData { priority: (AB_MAX_PRIORITY - 1) as u8, ..self.slots[other] }
        } else {
            self.slots[other]
        };
        ABModel { slots: self.slots.update(slot, chosen).update(other, lowered), ..self }
    }

    /// The record once a slot has started.
    pub open spec fn with_boot(self, slot: int) -> ABModel {
        ABModel {
            slots: self.slots.update(
                slot,
                ABSlotData {
                    tries_remaining: AB_MAX_TRIES_REMAINING,
                    successful_boot: 1,
                    ..self.slots[slot]
                },
            ),
            ..self
        }
    }

    /// The bytes of the record but for its checksum.
    pub open spec fn body(self) -> Seq<u8> {
        self.magic + seq![self.version_major, self.version_minor] + self.reserved1 + seq![
            self.slots[0].priority,
            self.slots[0].tries_remaining,
            self.slots[0].successful_boot,
            self.slots[0].reserved,
            self.slots[1].priority,
            self.slots[1].tries_remaining,
            self.slots[1].successful_boot,
            self.slots[1].reserved,
        ] + self.reserved2
    }

    /// The bytes of the record with a checksum.
    pub open spec fn bytes(self, crc: u32) -> Seq<u8> {
        self.body() + buffer::big_endian_32(crc)
    }

    /// The record as it is written: with the checksum of its bytes.
    pub open spec fn sealed(self) -> ABModel {
        ABModel { crc32: buffer::crc32(self.body()), ..self }
    }
}

/// The slot in four bytes.
pub open spec fn slot_of(b: Seq<u8>) -> ABSlotData {
    ABSlotData {
        priority: b[0],
        tries_remaining: b[1],
        successful_boot: b[2],
        reserved: b[3],
    }
}

/// The record in its bytes.
pub open spec fn record_of(b: Seq<u8>) -> ABModel {
    ABModel {
        magic: b.subrange(0, 4),
        version_major: b[4],
        version_minor: b[5],
        reserved1: b.subrange(6, 8),
        slots: seq![slot_of(b.subrange(8, 12)), slot_of(b.subrange(12, 16))],
        reserved2: b.subrange(16, 28),
        crc32: buffer::from_big_endian_32(b.subrange(28, 32)),
    }
}

/// A slot as a document.
pub open spec fn slot_json(s: ABSlotData) -> JsonModel {
    JsonModel::table().and(
        "priority"@,
        JsonModel::Number(JsonNumber::Unsigned(s.priority as u64)),
    ).and(
        "tries_remaining"@,
        JsonModel::Number(JsonNumber::Unsigned(s.tries_remaining as u64)),
    ).and(
        "successful_boot"@,
        JsonModel::Number(JsonNumber::Unsigned(s.successful_boot as u64)),
    )
}

/// The record as a document.
pub open spec fn ab_json(d: ABModel) -> JsonModel {
    JsonModel::table().and(
        "active_slot"@,
        JsonModel::Number(JsonNumber::Unsigned(d.active_slot() as u64)),
    ).and(
        "active_slot_letter"@,
        JsonModel::Text(
            if d.active_slot() == 0 {
                "A"@
            } else {
                "B"@
            },
        ),
    ).and(
        "version_major"@,
        JsonModel::Number(JsonNumber::Unsigned(d.version_major as u64)),
    ).and(
        "version_minor"@,
        JsonModel::Number(JsonNumber::Unsigned(d.version_minor as u64)),
    ).and(
        "slots"@,
        JsonModel::List(seq![slot_json(d.slots[0]), slot_json(d.slots[1])]),
    ).and("crc32"@, JsonModel::Number(JsonNumber::Unsigned(d.crc32 as u64)))
}

fn slot_document(s: ABSlotData) -> (r: Json)
    ensures
        r@ == slot_json(s),
{
    Json::table().and("priority", Json::unsigned(s.priority as u64)).and(
        "tries_remaining",
        Json::unsigned(s.tries_remaining as u64),
    ).and("successful_boot", Json::unsigned(s.successful_boot as u64))
}

impl Default for ABData {
    fn default() -> (r: ABData)
        ensures
            r@ == (ABModel {
                magic: zero_bytes(4),
                version_major: 0,
                version_minor: 0,
                reserved1: zero_bytes(2),
                slots: seq![
                    ABSlotData {
                        priority: 0,
                        tries_remaining: 0,
                        successful_boot: 0,
                        reserved: 0,
                    },
                    ABSlotData {
                        priority: 0,
                        tries_remaining: 0,
                        successful_boot: 0,
                        reserved: 0,
                    },
                ],
                reserved2: zero_bytes(12),
                crc32: 0,
            }),
    {
        let empty = ABSlotData::default();
        let r = ABData {
            magic: [0, 0, 0, 0],
            version_major: 0,
            version_minor: 0,
            reserved1: [0, 0],
            slots: [empty, empty],
            reserved2: [0, 0, 0, 0, 0, 0, 0, 0, 0, 0, 0, 0],
            crc32: 0,
        };
        assert(r@.magic =~= zero_bytes(4));
        assert(r@.reserved1 =~= zero_bytes(2));
        assert(r@.reserved2 =~= zero_bytes(12));
        assert(r@.slots =~= seq![empty, empty]);
        r
    }
}

impl ABData {
    /// Whether the record is one of this version.
    pub fn validate(&self) -> (r: bool)
        ensures
            r == self@.valid(),
    {
        let m = self.magic[0] == 0x00 && self.magic[1] == 0x41 && self.magic[2] == 0x42
            && self.magic[3] == 0x30;
        assert(m == (self.magic@ =~= AB_MAGIC@));
        m && self.version_major <= AB_MAJOR_VERSION
    }

    /// Makes the record the one that is written where there is none.
    pub fn reset(&mut self)
        ensures
            final(self)@ == ABModel::initial(),
    {
        let mut d = ABData::default();
        d.magic = AB_MAGIC;
        d.version_major = AB_MAJOR_VERSION;
        d.version_minor = AB_MINOR_VERSION;
        let first = ABSlotData {
            priority: AB_MAX_PRIORITY,
            tries_remaining: AB_MAX_TRIES_REMAINING,
            successful_boot: 0,
            reserved: 0,
        };
        let second = ABSlotData {
            priority: AB_MAX_PRIORITY - 1,
            tries_remaining: AB_MAX_TRIES_REMAINING,
            successful_boot: 0,
            reserved: 0,
        };
        d.slots = [first, second];
        assert(d@.magic =~= AB_MAGIC@);
        assert(d@.slots =~= seq![first, second]);
        *self = d;
    }

    /// The slot that starts.
    pub fn get_active_slot(&self) -> (r: usize)
        ensures
            r == self@.active_slot(),
    {
        if self.slots[0].priority > self.slots[1].priority {
            0
        } else {
            1
        }
    }

    /// Makes a slot the one that starts.
    pub fn set_active_slot(&mut self, slot: usize)
        requires
            slot < 2,
        ensures
            final(self)@ == old(self)@.with_active(slot as int),
    {
        let ghost before = self@;
        let other: usize = 1 - slot;
        let mut chosen = self.slots[slot];
        chosen.priority = AB_MAX_PRIORITY;
        chosen.tries_remaining = AB_MAX_TRIES_REMAINING;
        chosen.successful_boot = 0;
        let mut lowered = self.slots[other];
        if lowered.priority == AB_MAX_PRIORITY {
            lowered.priority = AB_MAX_PRIORITY - 1;
        }
        self.slots = if slot == 0 {
            [chosen, lowered]
        } else {
            [lowered, chosen]
        };
        assert(self@.slots =~= before.with_active(slot as int).slots);
    }

    /// Makes the other slot the one that starts.
    pub fn failover(&mut self)
        ensures
            final(self)@ == old(self)@.with_active(1 - old(self)@.active_slot()),
    {
        let new_slot: usize = 1 - self.get_active_slot();
        self.set_active_slot(new_slot);
    }

    /// Notes that a slot has started.
    pub fn set_successful_boot(&mut self, slot: usize)
        requires
            slot < 2,
        ensures
            final(self)@ == old(self)@.with_boot(slot as int),
    {
        let ghost before = self@;
        let mut booted = self.slots[slot];
        booted.tries_remaining = AB_MAX_TRIES_REMAINING;
        booted.successful_boot = 1;
        let kept = self.slots[1 - slot];
        self.slots = if slot == 0 {
            [booted, kept]
        } else {
            [kept, booted]
        };
        assert(self@.slots =~= before.with_boot(slot as int).slots);
    }

    /// The record as a document.
    pub fn to_json_value(&self) -> (r: Json)
        ensures
            r@ == ab_json(self@),
    {
        let active: usize = self.get_active_slot();
        let letter = if active == 0 {
            "A"
        } else {
            "B"
        };
        let mut items: Vec<Json> = Vec::new();
        items.push(slot_document(self.slots[0]));
        items.push(slot_document(self.slots[1]));
        let slots = Json::List(items);
        assert(slots@->List_0 =~= seq![slot_json(self@.slots[0]), slot_json(self@.slots[1])]);
        Json::table().and("active_slot", Json::unsigned(active as u64)).and(
            "active_slot_letter",
            Json::text(letter),
        ).and("version_major", Json::unsigned(self.version_major as u64)).and(
            "version_minor",
            Json::unsigned(self.version_minor as u64),
        ).and("slots", slots).and("crc32", Json::unsigned(self.crc32 as u64))
    }

    /// The bytes of the record with no checksum yet: there are zeros in its place.
    pub fn to_bytes_no_crc(&self) -> (r: Vec<u8>)
        ensures
            r@ == self@.bytes(0),
            r@.len() == AB_DATA_SIZE,
    {
        self.to_bytes_with_crc(0)
    }

    /// The bytes of the record with a checksum.
    pub fn to_bytes_with_crc(&self, crc: u32) -> (r: Vec<u8>)
        ensures
            r@ == self@.bytes(crc),
            r@.len() == AB_DATA_SIZE,
    {
        let mut out: Vec<u8> = Vec::new();
        push_all(&mut out, &self.magic);
        out.push(self.version_major);
        out.push(self.version_minor);
        push_all(&mut out, &self.reserved1);
        out.push(self.slots[0].priority);
        out.push(self.slots[0].tries_remaining);
        out.push(self.slots[0].successful_boot);
        out.push(self.slots[0].reserved);
        out.push(self.slots[1].priority);
        out.push(self.slots[1].tries_remaining);
        out.push(self.slots[1].successful_boot);
        out.push(self.slots[1].reserved);
        push_all(&mut out, &self.reserved2);
        assert(out@ =~= self@.body());
        out.push((crc / 0x100_0000) as u8);
        out.push((crc / 0x1_0000 % 0x100) as u8);
        out.push((crc / 0x100 % 0x100) as u8);
        out.push((crc % 0x100) as u8);
        assert(out@ =~= self@.bytes(crc));
        out
    }

    /// Reads the record out of its bytes.
    pub fn from_bytes(b: &[u8]) -> (r: ABData)
        requires
            b@.len() >= AB_DATA_SIZE,
        ensures
            r@ == record_of(b@),
    {
        let first = ABSlotData {
            priority: b[8],
            tries_remaining: b[9],
            successful_boot: b[10],
            reserved: b[11],
        };
        let second = ABSlotData {
            priority: b[12],
            tries_remaining: b[13],
            successful_boot: b[14],
            reserved: b[15],
        };
        let r = ABData {
            magic: [b[0], b[1], b[2], b[3]],
            version_major: b[4],
            version_minor: b[5],
            reserved1: [b[6], b[7]],
            slots: [first, second],
            reserved2: [
                b[16],
                b[17],
                b[18],
                b[19],
                b[20],
                b[21],
                b[22],
                b[23],
                b[24],
                b[25],
                b[26],
                b[27],
            ],
            crc32: b[28] as u32 * 0x100_0000 + b[29] as u32 * 0x1_0000 + b[30] as u32 * 0x100
                + b[31] as u32,
        };
        assert(r@.magic =~= b@.subrange(0, 4));
        assert(r@.reserved1 =~= b@.subrange(6, 8));
        assert(r@.reserved2 =~= b@.subrange(16, 28));
        assert(r@.slots =~= record_of(b@).slots);
        r
    }

    /// The checksum of the record's bytes, without those of the checksum itself.
    pub fn calculate_crc32(&self) -> (r: u32)
        ensures
            r == buffer::crc32(self@.body()),
    {
        let bytes = self.to_bytes_no_crc();
        assert(bytes@.take(AB_DATA_SIZE - 4) =~= self@.body());
        buffer::crc32_of(vstd::slice::slice_subrange(bytes.as_slice(), 0, AB_DATA_SIZE - 4))
    }
}

fn push_all(out: &mut Vec<u8>, data: &[u8])
    ensures
        final(out)@ == old(out)@ + data@,
{
    let ghost before = out@;
    let mut i: usize = 0;
    while i < data.len()
        invariant
            i <= data.len(),
            out@ == before + data@.take(i as int),
        decreases data.len() - i,
    {
        out.push(data[i]);
        assert(data@.take(i + 1) =~= data@.take(i as int).push(data@[i as int]));
        i += 1;
    }
    assert(data@.take(i as int) =~= data@);
}

/// The record in what the partition holds.
pub open spec fn record_in(misc: Seq<u8>) -> ABModel {
    record_of(misc.subrange(AB_METADATA_MISC_PARTITION_OFFSET as int, MISC_BUF_SIZE as int))
}

/// The failure where the partition holds too little.
pub open spec fn too_short() -> ErrorModel {
    ErrorModel::Io("failed to fill whole buffer"@)
}

/// What comes of reading the record of a partition: it has to hold enough bytes, and a record of
/// this version among them.
pub open spec fn loaded(misc: Seq<u8>) -> Result<ABModel, ErrorModel> {
    if misc.len() < MISC_BUF_SIZE {
        Err(too_short())
    } else if record_in(misc).valid() {
        Ok(record_in(misc))
    } else {
        Err(ErrorModel::General("invalid AB data"@))
    }
}

/// Reads the record out of what the partition holds. Neither the minor version nor the checksum
/// decides.
pub fn open_and_load_ab_data(misc_buf: &[u8]) -> (r: Result<ABData, NocturnedError>)
    ensures
        match r {
            Ok(d) => loaded(misc_buf@) == Ok::<ABModel, ErrorModel>(d@),
            Err(e) => loaded(misc_buf@) == Err::<ABModel, ErrorModel>(e@),
        },
        r is Ok <==> {
            let at = AB_METADATA_MISC_PARTITION_OFFSET as int;
            misc_buf@.len() >= MISC_BUF_SIZE && misc_buf@.subrange(at, at + 4) == AB_MAGIC@
                && misc_buf@[at + 4] <= AB_MAJOR_VERSION
        },
{
    if misc_buf.len() < MISC_BUF_SIZE {
        return Err(NocturnedError::Io("failed to fill whole buffer".to_owned()));
    }
    assert(record_in(misc_buf@).magic =~= misc_buf@.subrange(
        AB_METADATA_MISC_PARTITION_OFFSET as int,
        AB_METADATA_MISC_PARTITION_OFFSET + 4,
    ));
    let info = ABData::from_bytes(
        vstd::slice::slice_subrange(misc_buf, AB_METADATA_MISC_PARTITION_OFFSET, MISC_BUF_SIZE),
    );
    if !info.validate() {
        return Err(NocturnedError::General("invalid AB data".to_owned()));
    }
    Ok(info)
}

/// What a partition holds once a record was written to it: the record with its checksum in its
/// place, and the rest as it was.
pub open spec fn with_record(misc: Seq<u8>, info: ABModel) -> Seq<u8> {
    misc.take(AB_METADATA_MISC_PARTITION_OFFSET as int) + info.bytes(buffer::crc32(info.body()))
        + misc.skip(MISC_BUF_SIZE as int)
}

/// Puts the record into what the partition holds. Where that is too little, it stays as it is.
pub fn save_ab_data(info: &ABData, misc_buf: &mut Vec<u8>) -> (r: Result<(), NocturnedError>)
    ensures
        if old(misc_buf)@.len() < MISC_BUF_SIZE {
            &&& r matches Err(e) && e@ == too_short()
            &&& final(misc_buf)@ == old(misc_buf)@
        } else {
            &&& r is Ok
            &&& final(misc_buf)@ == with_record(old(misc_buf)@, info@)
            &&& final(misc_buf)@.len() == old(misc_buf)@.len()
        },
{
    if misc_buf.len() < MISC_BUF_SIZE {
        return Err(NocturnedError::Io("failed to fill whole buffer".to_owned()));
    }
    let ghost before = misc_buf@;
    let crc: u32 = info.calculate_crc32();
    let bytes = info.to_bytes_with_crc(crc);
    let rest = misc_buf.split_off(MISC_BUF_SIZE);
    misc_buf.truncate(AB_METADATA_MISC_PARTITION_OFFSET);
    push_all(misc_buf, bytes.as_slice());
    push_all(misc_buf, rest.as_slice());
    assert(misc_buf@ =~= with_record(before, info@));
    Ok(())
}

/// A record reads back from its bytes as it was, with the checksum that was written.
pub proof fn law_record_reads_back(d: ABModel, crc: u32)
    requires
        d.well_formed(),
    ensures
        record_of(d.bytes(crc)) == (ABModel { crc32: crc, ..d }),
{
    let b = d.bytes(crc);
    let r = record_of(b);
    assert(b.subrange(28, 32) =~= buffer::big_endian_32(crc));
    assert((crc / 0x100_0000) * 0x100_0000 + (crc / 0x1_0000 % 0x100) * 0x1_0000 + (crc / 0x100
        % 0x100) * 0x100 + crc % 0x100 == crc) by (bit_vector);
    assert(r.magic =~= d.magic);
    assert(r.reserved1 =~= d.reserved1);
    assert(r.reserved2 =~= d.reserved2);
    assert(r.slots =~= d.slots);
}

/// A valid record that was written to a partition is the one that is read from it, with the
/// checksum of its bytes, and no other byte of the partition changed.
pub proof fn law_saved_record_is_loaded(misc: Seq<u8>, d: ABModel)
    requires
        misc.len() >= MISC_BUF_SIZE,
        d.well_formed(),
    ensures
        record_in(with_record(misc, d)) == d.sealed(),
        d.valid() ==> loaded(with_record(misc, d)) == Ok::<ABModel, ErrorModel>(d.sealed()),
        !d.valid() ==> loaded(with_record(misc, d)) is Err,
        with_record(misc, d).len() == misc.len(),
        forall|i: int|
            0 <= i < AB_METADATA_MISC_PARTITION_OFFSET || MISC_BUF_SIZE <= i < misc.len()
                ==> #[trigger] with_record(misc, d)[i] == misc[i],
{
    let crc = buffer::crc32(d.body());
    let out = with_record(misc, d);
    assert(d.bytes(crc).len() == AB_DATA_SIZE);
    assert(out.subrange(AB_METADATA_MISC_PARTITION_OFFSET as int, MISC_BUF_SIZE as int)
        =~= d.bytes(crc));
    law_record_reads_back(d, crc);
}

/// The record that is written where there is none is valid, starts the first slot, and has either
/// slot not started yet, with all its attempts.
pub proof fn law_initial_record()
    ensures
        ABModel::initial().valid(),
        ABModel::initial().well_formed(),
        ABModel::initial().active_slot() == 0,
        forall|i: int|
            0 <= i < 2 ==> (#[trigger] ABModel::initial().slots[i]).tries_remaining
                == AB_MAX_TRIES_REMAINING && ABModel::initial().slots[i].successful_boot == 0
                && ABModel::initial().slots[i].priority == AB_MAX_PRIORITY - i,
{
}

/// A slot that was made the one that starts is the one that starts, unless the other has a
/// priority above the highest.
pub proof fn law_chosen_slot_is_active(d: ABModel, slot: int)
    requires
        d.well_formed(),
        0 <= slot < 2,
        d.slots[1 - slot].priority <= AB_MAX_PRIORITY,
    ensures
        d.with_active(slot).active_slot() == slot,
        d.with_active(slot).well_formed(),
{
}

/// A slot that was made the one that starts has the highest priority, all its attempts and no mark
/// of having started. The other keeps its attempts and its mark, and its priority unless that was
/// the highest. Nothing else in the record changes.
pub proof fn law_chosen_slot_gets_its_attempts(d: ABModel, slot: int)
    requires
        d.well_formed(),
        0 <= slot < 2,
    ensures
        ({
            let chosen = d.with_active(slot).slots[slot];
            let other = d.with_active(slot).slots[1 - slot];
            let before = d.slots[1 - slot];
            &&& chosen.priority == AB_MAX_PRIORITY
            &&& chosen.tries_remaining == AB_MAX_TRIES_REMAINING
            &&& chosen.tries_remaining > 0
            &&& chosen.successful_boot == 0
            &&& chosen.reserved == d.slots[slot].reserved
            &&& other.tries_remaining == before.tries_remaining
            &&& other.successful_boot == before.successful_boot
            &&& other.reserved == before.reserved
            &&& before.priority != AB_MAX_PRIORITY ==> other.priority == before.priority
            &&& before.priority == AB_MAX_PRIORITY ==> other.priority == AB_MAX_PRIORITY - 1
        }),
        d.with_active(slot).slots.len() == 2,
        d.with_active(slot).magic == d.magic,
        d.with_active(slot).version_major == d.version_major,
        d.with_active(slot).version_minor == d.version_minor,
        d.with_active(slot).reserved1 == d.reserved1,
        d.with_active(slot).reserved2 == d.reserved2,
        d.with_active(slot).crc32 == d.crc32,
{
}

/// Changing over moves to the other slot, and doing so twice moves back.
pub proof fn law_failover_changes_slots(d: ABModel)
    requires
        d.well_formed(),
        d.slots[0].priority <= AB_MAX_PRIORITY,
        d.slots[1].priority <= AB_MAX_PRIORITY,
    ensures
        ({
            let once = d.with_active(1 - d.active_slot());
            let twice = once.with_active(1 - once.active_slot());
            &&& once.active_slot() == 1 - d.active_slot()
            &&& twice.active_slot() == d.active_slot()
            &&& once.valid() == d.valid()
        }),
{
}

/// Noting that a slot has started marks that slot and gives it all its attempts. It does not change
/// which slot starts, nor anything else in the record.
pub proof fn law_boot_keeps_the_active_slot(d: ABModel, slot: int)
    requires
        d.well_formed(),
        0 <= slot < 2,
    ensures
        d.with_boot(slot).active_slot() == d.active_slot(),
        d.with_boot(slot).slots[slot].successful_boot == 1,
        d.with_boot(slot).slots[1 - slot] == d.slots[1 - slot],
        d.with_boot(slot).slots[slot].tries_remaining == AB_MAX_TRIES_REMAINING,
        d.with_boot(slot).slots[slot].priority == d.slots[slot].priority,
        d.with_boot(slot).slots[slot].reserved == d.slots[slot].reserved,
        d.with_boot(slot).slots.len() == 2,
        d.with_boot(slot).magic == d.magic,
        d.with_boot(slot).version_major == d.version_major,
        d.with_boot(slot).version_minor == d.version_minor,
        d.with_boot(slot).reserved1 == d.reserved1,
        d.with_boot(slot).reserved2 == d.reserved2,
        d.with_boot(slot).crc32 == d.crc32,
{
}

/// What the clients are told of a slot is what the record says of it.
pub proof fn law_slot_is_told(s: ABSlotData)
    ensures
        slot_json(s).unsigned_field("priority"@) matches Some(n) && n == s.priority,
        slot_json(s).unsigned_field("tries_remaining"@) matches Some(n) && n == s.tries_remaining,
        slot_json(s).unsigned_field("successful_boot"@) matches Some(n) && n == s.successful_boot,
{
    reveal_strlit("priority");
    reveal_strlit("tries_remaining");
    reveal_strlit("successful_boot");
    assert("priority"@.len() == 8 && "tries_remaining"@.len() == 15);
    assert("successful_boot"@.len() == 15);
    assert("tries_remaining"@[0] != "successful_boot"@[0]);
    let d0 = JsonModel::table();
    crate::json::law_bare_object_has_no_member("priority"@);
    crate::json::law_bare_object_has_no_member("tries_remaining"@);
    crate::json::law_bare_object_has_no_member("successful_boot"@);
    crate::json::law_member_is_found(
        d0,
        "priority"@,
        JsonModel::Number(JsonNumber::Unsigned(s.priority as u64)),
    );
    let d1 = d0.and("priority"@, JsonModel::Number(JsonNumber::Unsigned(s.priority as u64)));
    crate::json::law_member_is_found(
        d1,
        "tries_remaining"@,
        JsonModel::Number(JsonNumber::Unsigned(s.tries_remaining as u64)),
    );
    let d2 = d1.and(
        "tries_remaining"@,
        JsonModel::Number(JsonNumber::Unsigned(s.tries_remaining as u64)),
    );
    crate::json::law_member_is_found(
        d2,
        "successful_boot"@,
        JsonModel::Number(JsonNumber::Unsigned(s.successful_boot as u64)),
    );
    let d3 = d2.and(
        "successful_boot"@,
        JsonModel::Number(JsonNumber::Unsigned(s.successful_boot as u64)),
    );
    assert(slot_json(s) == d3);
}

/// What the clients are told of the record is what it says: the slot that starts, by its number and
/// its letter, both slots in their order, the version and the checksum.
pub proof fn law_record_is_told(d: ABModel)
    requires
        d.well_formed(),
    ensures
        ab_json(d).unsigned_field("active_slot"@) matches Some(n) && n == d.active_slot(),
        ab_json(d).text_field("active_slot_letter"@) == Some(
            if d.active_slot() == 0 {
                "A"@
            } else {
                "B"@
            },
        ),
        ab_json(d).unsigned_field("version_major"@) matches Some(n) && n == d.version_major,
        ab_json(d).unsigned_field("version_minor"@) matches Some(n) && n == d.version_minor,
        ab_json(d).unsigned_field("crc32"@) matches Some(n) && n == d.crc32,
        ab_json(d).field("slots"@) matches Some(JsonModel::List(items)) && items.len() == 2
            && items[0] == slot_json(d.slots[0]) && items[1] == slot_json(d.slots[1]),
{
    let letter = if d.active_slot() == 0 {
        "A"@
    } else {
        "B"@
    };
    let slots = JsonModel::List(seq![slot_json(d.slots[0]), slot_json(d.slots[1])]);
    reveal_strlit("active_slot");
    reveal_strlit("active_slot_letter");
    reveal_strlit("version_major");
    reveal_strlit("version_minor");
    reveal_strlit("slots");
    reveal_strlit("crc32");
    assert("active_slot"@.len() == 11 && "active_slot_letter"@.len() == 18);
    assert("version_major"@.len() == 13);
    assert("version_minor"@.len() == 13 && "slots"@.len() == 5 && "crc32"@.len() == 5);
    assert("version_major"@[9] != "version_minor"@[9]);
    assert("slots"@[0] != "crc32"@[0]);
    let d0 = JsonModel::table();
    crate::json::law_bare_object_has_no_member("active_slot"@);
    crate::json::law_bare_object_has_no_member("active_slot_letter"@);
    crate::json::law_bare_object_has_no_member("version_major"@);
    crate::json::law_bare_object_has_no_member("version_minor"@);
    crate::json::law_bare_object_has_no_member("slots"@);
    crate::json::law_bare_object_has_no_member("crc32"@);
    crate::json::law_member_is_found(
        d0,
        "active_slot"@,
        JsonModel::Number(JsonNumber::Unsigned(d.active_slot() as u64)),
    );
    let d1 = d0.and(
        "active_slot"@,
        JsonModel::Number(JsonNumber::Unsigned(d.active_slot() as u64)),
    );
    crate::json::law_member_is_found(d1, "active_slot_letter"@, JsonModel::Text(letter));
    let d2 = d1.and("active_slot_letter"@, JsonModel::Text(letter));
    crate::json::law_member_is_found(
        d2,
        "version_major"@,
        JsonModel::Number(JsonNumber::Unsigned(d.version_major as u64)),
    );
    let d3 = d2.and(
        "version_major"@,
        JsonModel::Number(JsonNumber::Unsigned(d.version_major as u64)),
    );
    crate::json::law_member_is_found(
        d3,
        "version_minor"@,
        JsonModel::Number(JsonNumber::Unsigned(d.version_minor as u64)),
    );
    let d4 = d3.and(
        "version_minor"@,
        JsonModel::Number(JsonNumber::Unsigned(d.version_minor as u64)),
    );
    crate::json::law_member_is_found(d4, "slots"@, slots);
    let d5 = d4.and("slots"@, slots);
    crate::json::law_member_is_found(
        d5,
        "crc32"@,
        JsonModel::Number(JsonNumber::Unsigned(d.crc32 as u64)),
    );
    let d6 = d5.and("crc32"@, JsonModel::Number(JsonNumber::Unsigned(d.crc32 as u64)));
    assert(ab_json(d) == d6);
}

/// The slot that starts is one of the two, and none has a higher priority.
pub proof fn law_active_slot_has_the_highest_priority(d: ABModel)
    requires
        d.well_formed(),
    ensures
        0 <= d.active_slot() < 2,
        d.slots[d.active_slot()].priority >= d.slots[1 - d.active_slot()].priority,
        d.slots[0].priority == d.slots[1].priority ==> d.active_slot() == 1,
{
}

/// A record is valid just where it begins as one and is of no later version than is known.
pub proof fn law_valid_record_is_known(d: ABModel)
    requires
        d.well_formed(),
    ensures
        d.valid() <==> {
            &&& d.magic[0] == 0
            &&& d.magic[1] == 'A' as u8
            &&& d.magic[2] == 'B' as u8
            &&& d.magic[3] == '0' as u8
            &&& d.version_major <= 1
        },
{
    assert(AB_MAGIC@ =~= seq![0x00u8, 0x41, 0x42, 0x30]);
    if d.magic[0] == 0 && d.magic[1] == 0x41 && d.magic[2] == 0x42 && d.magic[3] == 0x30 {
        assert(d.magic =~= AB_MAGIC@);
    }
}

} // verus!
