//! Documents in foreign encodings: MessagePack values, and JSON text.
use crate::error::NocturnedError;
use crate::json;
use crate::json::{Json, JsonField, JsonModel, JsonNumber};
use crate::text;
use rmpv::Value;
use rmpv::Value::{Array, Binary, Boolean, Ext, F32, F64, Integer, Nil};
use serde_json::Value as JsonValue;
use vstd::prelude::*;

verus! {

/// `rmpv::Value`, a MessagePack value of any shape.
#[verifier::external_type_specification]
#[verifier::external_body]
pub struct ExMsgPackValue(rmpv::Value);

/// `serde_json::Value`, a JSON document of any shape.
#[verifier::external_type_specification]
#[verifier::external_body]
pub struct ExJsonValue(serde_json::Value);

/// A MessagePack value. An integer is given as far as it fits in 64 bits without and with a sign.
/// Fractions are carried by their IEEE 754 bit pattern, a text is missing where it is not UTF-8.
#[derive(Debug)]
pub enum MpValue {
    Nil,
    Bool(bool),
    Integer { unsigned: Option<u64>, signed: Option<i64> },
    Single(u32),
    Double(u64),
    Text(Option<String>),
    Binary(Vec<u8>),
    List(Vec<MpValue>),
    Table(Vec<MpPair>),
    Ext,
}

/// An entry of a MessagePack map.
#[derive(Debug)]
pub struct MpPair {
    pub key: MpValue,
    pub value: MpValue,
}

/// What a MessagePack value says, apart from how it is stored.
pub enum MpModel {
    Nil,
    Bool(bool),
    Integer { unsigned: Option<u64>, signed: Option<i64> },
    Single(u32),
    Double(u64),
    Text(Option<Seq<char>>),
    Binary(Seq<u8>),
    List(Seq<MpModel>),
    Table(Seq<(MpModel, MpModel)>),
    Ext,
}

impl View for MpValue {
    type V = MpModel;

    open spec fn view(&self) -> MpModel
        decreases self,
    {
        match self {
            MpValue::Nil => MpModel::Nil,
            MpValue::Bool(b) => MpModel::Bool(*b),
            MpValue::Integer { unsigned, signed } => MpModel::Integer {
                unsigned: *unsigned,
                signed: *signed,
            },
            MpValue::Single(bits) => MpModel::Single(*bits),
            MpValue::Double(bits) => MpModel::Double(*bits),
            MpValue::Text(s) => MpModel::Text(text::optional_text(*s)),
            MpValue::Binary(b) => MpModel::Binary(b@),
            MpValue::List(items) => MpModel::List(
                Seq::new(
                    items@.len(),
                    |i: int|
                        if 0 <= i < items@.len() {
                            items@[i].view()
                        } else {
                            MpModel::Nil
                        },
                ),
            ),
            MpValue::Table(pairs) => MpModel::Table(
                Seq::new(
                    pairs@.len(),
                    |i: int|
                        if 0 <= i < pairs@.len() {
                            (pairs@[i].key.view(), pairs@[i].value.view())
                        } else {
                            (MpModel::Nil, MpModel::Nil)
                        },
                ),
            ),
            MpValue::Ext => MpModel::Ext,
        }
    }
}

/// What the model of a list or a map holds, position by position.
pub broadcast proof fn lemma_mp_view(v: MpValue)
    ensures
        #![trigger v.view()]
        v matches MpValue::List(items) ==> {
            &&& v.view() matches MpModel::List(model)
            &&& model.len() == items@.len()
            &&& forall|i: int| 0 <= i < items@.len() ==> #[trigger] model[i] == items@[i].view()
        },
        v matches MpValue::Table(pairs) ==> {
            &&& v.view() matches MpModel::Table(model)
            &&& model.len() == pairs@.len()
            &&& forall|i: int|
                0 <= i < pairs@.len() ==> #[trigger] model[i] == (
                    pairs@[i].key.view(),
                    pairs@[i].value.view(),
                )
        },
{
    reveal_with_fuel(<MpValue as View>::view, 2);
}

/// What an `rmpv::Value` holds.
pub uninterp spec fn held_value(value: rmpv::Value) -> MpModel;

/// The MessagePack value at the beginning of some bytes, where there is one.
pub uninterp spec fn msgpack_value(data: Seq<u8>) -> Option<MpModel>;

/// `rmpv::decode::read_value` reads the MessagePack value at the beginning of some bytes. It fails
/// where there is none; the failure is not kept.
#[verifier::external_body]
fn read_value(data: &[u8]) -> (r: Option<rmpv::Value>)
    ensures
        match r {
            Some(v) => msgpack_value(data@) == Some(held_value(v)),
            None => msgpack_value(data@) is None,
        },
{
    let mut rest = data;
    rmpv::decode::read_value(&mut rest).ok()
}

/// Takes an `rmpv::Value` apart, variant by variant.
#[verifier::external_body]
fn mp_value(value: rmpv::Value) -> (r: MpValue)
    ensures
        r@ == held_value(value),
{
    match value {
        Nil => MpValue::Nil,
        Boolean(b) => MpValue::Bool(b),
        Integer(i) => MpValue::Integer { unsigned: i.as_u64(), signed: i.as_i64() },
        F32(x) => MpValue::Single(x.to_bits()),
        F64(x) => MpValue::Double(x.to_bits()),
        Value::String(s) => MpValue::Text(s.into_str()),
        Binary(b) => MpValue::Binary(b),
        Array(a) => MpValue::List(a.into_iter().map(mp_value).collect()),
        Value::Map(m) => MpValue::Table(
            m.into_iter().map(|(k, v)| MpPair { key: mp_value(k), value: mp_value(v) }).collect(),
        ),
        Ext(..) => MpValue::Ext,
    }
}

/// A single-precision bit pattern stands for a finite number.
pub open spec fn finite_single(bits: u32) -> bool {
    bits / 0x80_0000 % 0x100 != 0xff
}

/// A single-precision number as JSON: there is none for what is not finite.
pub open spec fn single_json(bits: u32) -> JsonModel {
    if finite_single(bits) {
        JsonModel::Number(JsonNumber::Single(bits))
    } else {
        JsonModel::Null
    }
}

/// Makes a single-precision number JSON.
pub fn single_to_json(bits: u32) -> (r: Json)
    ensures
        r@ == single_json(bits),
{
    if bits / 0x80_0000 % 0x100 != 0xff {
        Json::Number(JsonNumber::Single(bits))
    } else {
        Json::Null
    }
}

/// A double-precision bit pattern stands for a finite number.
pub open spec fn finite_double(bits: u64) -> bool {
    bits / 0x10_0000_0000_0000 % 0x800 != 0x7ff
}

/// The JSON text of a MessagePack text, empty where that is not UTF-8.
pub open spec fn text_or_empty(s: Option<Seq<char>>) -> Seq<char> {
    match s {
        Some(s) => s,
        None => Seq::empty(),
    }
}

/// Bytes as a JSON list of numbers.
pub open spec fn byte_list(data: Seq<u8>) -> JsonModel {
    JsonModel::List(
        data.map_values(|b: u8| JsonModel::Number(JsonNumber::Unsigned(b as u64))),
    )
}

/// The JSON document of a MessagePack value. What JSON has no number for, and extensions, become
/// null; entries of a map whose key is no text are left out, and of two with the same key the
/// later counts.
pub open spec fn json_of(v: MpModel) -> JsonModel
    decreases v, 0nat,
{
    match v {
        MpModel::Nil => JsonModel::Null,
        MpModel::Bool(b) => JsonModel::Bool(b),
        MpModel::Integer { unsigned: Some(n), .. } => JsonModel::Number(JsonNumber::Unsigned(n)),
        MpModel::Integer { unsigned: None, signed: Some(n) } => JsonModel::Number(
            json::signed_number(n),
        ),
        MpModel::Integer { unsigned: None, signed: None } => JsonModel::Null,
        MpModel::Single(bits) => single_json(bits),
        MpModel::Double(bits) => if finite_double(bits) {
            JsonModel::Number(JsonNumber::Double(bits))
        } else {
            JsonModel::Null
        },
        MpModel::Text(s) => JsonModel::Text(text_or_empty(s)),
        MpModel::Binary(b) => byte_list(b),
        MpModel::List(items) => JsonModel::List(
            Seq::new(
                items.len(),
                |i: int|
                    if 0 <= i < items.len() {
                        json_of(items[i])
                    } else {
                        JsonModel::Null
                    },
            ),
        ),
        MpModel::Table(pairs) => fields_of(pairs, pairs.len()),
        MpModel::Ext => JsonModel::Null,
    }
}

/// The object that the first `n` entries of a map make.
pub open spec fn fields_of(pairs: Seq<(MpModel, MpModel)>, n: nat) -> JsonModel
    decreases pairs, n,
{
    if n == 0 || n > pairs.len() {
        JsonModel::table()
    } else {
        let before = fields_of(pairs, (n - 1) as nat);
        match pairs[n - 1].0 {
            MpModel::Text(key) => before.with(text_or_empty(key), json_of(pairs[n - 1].1)),
            _ => before,
        }
    }
}

proof fn lemma_json_of_list(items: Seq<MpModel>)
    ensures
        ({
            let doc = json_of(MpModel::List(items));
            &&& doc matches JsonModel::List(out)
            &&& out.len() == items.len()
            &&& forall|i: int| 0 <= i < items.len() ==> #[trigger] out[i] == json_of(items[i])
        }),
{
    reveal_with_fuel(json_of, 2);
}

/// An object is made of any entries.
proof fn lemma_fields_of_table(pairs: Seq<(MpModel, MpModel)>, n: nat)
    ensures
        fields_of(pairs, n) is Table,
    decreases n,
{
    if n > 0 && n <= pairs.len() {
        lemma_fields_of_table(pairs, (n - 1) as nat);
    }
}

proof fn lemma_list_well_formed(items: Seq<MpModel>)
    requires
        forall|i: int| 0 <= i < items.len() ==> json_of(#[trigger] items[i]).well_formed(),
    ensures
        json_of(MpModel::List(items)).well_formed(),
{
    lemma_json_of_list(items);
    let out = json_of(MpModel::List(items))->List_0;
    assert forall|i: int| 0 <= i < out.len() implies (#[trigger] out[i]).well_formed() by {
        assert(json_of(items[i]).well_formed());
    }
    assert(JsonModel::List(out).well_formed());
}

/// The JSON document of a MessagePack value has distinct keys in every object.
pub proof fn law_json_of_is_well_formed(v: MpModel)
    ensures
        json_of(v).well_formed(),
    decreases v, 0nat,
{
    match v {
        MpModel::List(items) => {
            assert forall|i: int| 0 <= i < items.len() implies json_of(
                #[trigger] items[i],
            ).well_formed() by {
                law_json_of_is_well_formed(items[i]);
            }
            lemma_list_well_formed(items);
        },
        MpModel::Binary(b) => {
            let out = byte_list(b)->List_0;
            assert forall|i: int| 0 <= i < out.len() implies (#[trigger] out[i]).well_formed() by {
                assert(out[i] == JsonModel::Number(JsonNumber::Unsigned(b[i] as u64)));
            }
        },
        MpModel::Table(pairs) => {
            lemma_fields_well_formed(pairs, pairs.len());
        },
        _ => {},
    }
}

proof fn lemma_fields_well_formed(pairs: Seq<(MpModel, MpModel)>, n: nat)
    ensures
        fields_of(pairs, n).well_formed(),
    decreases pairs, n,
{
    if n > 0 && n <= pairs.len() {
        lemma_fields_well_formed(pairs, (n - 1) as nat);
        if let MpModel::Text(key) = pairs[n - 1].0 {
            law_json_of_is_well_formed(pairs[n - 1].1);
            json::law_with_keeps_well_formed(
                fields_of(pairs, (n - 1) as nat),
                text_or_empty(key),
                json_of(pairs[n - 1].1),
            );
        }
    }
}

/// Makes a JSON list of bytes.
pub fn bytes_to_json(data: &[u8]) -> (r: Json)
    ensures
        r@ == byte_list(data@),
{
    broadcast use json::lemma_json_view;

    let mut out: Vec<Json> = Vec::new();
    let mut i: usize = 0;
    while i < data.len()
        invariant
            i <= data.len(),
            out@.len() == i,
            forall|k: int|
                0 <= k < i ==> (#[trigger] out@[k])@ == JsonModel::Number(
                    JsonNumber::Unsigned(data@[k] as u64),
                ),
        decreases data.len() - i,
    {
        out.push(Json::unsigned(data[i] as u64));
        i += 1;
    }
    let r = Json::List(out);
    assert(r@->List_0 =~= byte_list(data@)->List_0);
    r
}

/// Makes a JSON document of a MessagePack value.
pub fn rmpv_to_json(value: &MpValue) -> (r: Json)
    ensures
        r@ == json_of(value@),
    decreases value,
{
    broadcast use {lemma_mp_view, json::lemma_json_view};

    match value {
        MpValue::Nil => Json::Null,
        MpValue::Bool(b) => Json::Bool(*b),
        MpValue::Integer { unsigned, signed } => match unsigned {
            Some(n) => Json::unsigned(*n),
            None => match signed {
                Some(n) => Json::signed(*n),
                None => Json::Null,
            },
        },
        MpValue::Single(bits) => single_to_json(*bits),
        MpValue::Double(bits) => if *bits / 0x10_0000_0000_0000 % 0x800 != 0x7ff {
            Json::Number(JsonNumber::Double(*bits))
        } else {
            Json::Null
        },
        MpValue::Text(s) => match s {
            Some(s) => Json::Text(s.clone()),
            None => Json::Text(String::new()),
        },
        MpValue::Binary(b) => bytes_to_json(b.as_slice()),
        MpValue::List(items) => {
            proof {
                lemma_json_of_list(value@->List_0);
            }
            let mut out: Vec<Json> = Vec::new();
            let mut i: usize = 0;
            while i < items.len()
                invariant
                    i <= items.len(),
                    out@.len() == i,
                    decreases_to!(value => items),
                    forall|k: int| 0 <= k < i ==> (#[trigger] out@[k])@ == json_of(items@[k]@),
                decreases items.len() - i,
            {
                out.push(rmpv_to_json(&items[i]));
                i += 1;
            }
            let r = Json::List(out);
            assert(r@->List_0 =~= json_of(value@)->List_0);
            r
        },
        MpValue::Table(pairs) => {
            let ghost model = value@->Table_0;
            let mut out = Json::table();
            let mut i: usize = 0;
            while i < pairs.len()
                invariant
                    i <= pairs.len(),
                    decreases_to!(value => pairs),
                    model.len() == pairs@.len(),
                    forall|k: int|
                        0 <= k < pairs@.len() ==> #[trigger] model[k] == (
                            pairs@[k].key@,
                            pairs@[k].value@,
                        ),
                    out@ == fields_of(model, i as nat),
                decreases pairs.len() - i,
            {
                proof {
                    lemma_fields_of_table(model, i as nat);
                    assert(model[i as int] == (pairs@[i as int].key@, pairs@[i as int].value@));
                }
                let doc = rmpv_to_json(&pairs[i].value);
                if let MpValue::Text(key) = &pairs[i].key {
                    match key {
                        Some(key) => out.set(key.as_str(), doc),
                        None => {
                            let empty = String::new();
                            out.set(empty.as_str(), doc)
                        },
                    }
                }
                i += 1;
            }
            out
        },
        MpValue::Ext => Json::Null,
    }
}

/// The JSON document of the MessagePack value at the beginning of some bytes, where there is one.
pub open spec fn document_of(data: Seq<u8>) -> Option<JsonModel> {
    match msgpack_value(data) {
        Some(v) => Some(json_of(v)),
        None => None,
    }
}

/// Reads bytes as a MessagePack value of any shape, and makes a JSON document of it.
pub fn read_document(data: &[u8]) -> (r: Option<Json>)
    ensures
        match r {
            Some(doc) => document_of(data@) == Some(doc@),
            None => document_of(data@) is None,
        },
{
    match read_value(data) {
        Some(v) => {
            let v = mp_value(v);
            Some(rmpv_to_json(&v))
        },
        None => None,
    }
}

/// What a `serde_json::Value` holds.
pub uninterp spec fn held_json(value: serde_json::Value) -> JsonModel;

/// The JSON document that some bytes spell, or what is wrong with them.
pub uninterp spec fn json_read(data: Seq<u8>) -> Result<JsonModel, Seq<char>>;

/// `serde_json::from_slice` reads bytes as a JSON document, or says what is wrong with them.
#[verifier::external_body]
fn read_json_value(data: &[u8]) -> (r: Result<serde_json::Value, String>)
    ensures
        match r {
            Ok(v) => json_read(data@) == Ok::<JsonModel, Seq<char>>(held_json(v)),
            Err(fault) => json_read(data@) == Err::<JsonModel, Seq<char>>(fault@),
        },
{
    serde_json::from_slice::<serde_json::Value>(data).map_err(|e| e.to_string())
}

/// Takes a `serde_json::Value` apart, variant by variant.
#[verifier::external_body]
fn json_value(value: serde_json::Value) -> (r: Json)
    ensures
        r@ == held_json(value),
{
    match value {
        JsonValue::Null => Json::Null,
        JsonValue::Bool(b) => Json::Bool(b),
        JsonValue::Number(n) => Json::Number(match (n.as_u64(), n.as_i64()) {
            (Some(u), _) => JsonNumber::Unsigned(u),
            (None, Some(i)) => JsonNumber::Negative(i),
            (None, None) => JsonNumber::Double(n.as_f64().unwrap_or_default().to_bits()),
        }),
        JsonValue::String(s) => Json::Text(s),
        JsonValue::Array(a) => Json::List(a.into_iter().map(json_value).collect()),
        JsonValue::Object(m) => Json::Table(
            m.into_iter().map(|(key, v)| JsonField { key, value: json_value(v) }).collect(),
        ),
    }
}

/// Reads bytes as a JSON document.
pub fn read_json(data: &[u8]) -> (r: Result<Json, NocturnedError>)
    ensures
        match r {
            Ok(doc) => json_read(data@) == Ok::<JsonModel, Seq<char>>(doc@),
            Err(e) => e@ is Json && json_read(data@) == Err::<JsonModel, Seq<char>>(e@->Json_0),
        },
{
    match read_json_value(data) {
        Ok(v) => Ok(json_value(v)),
        Err(fault) => Err(NocturnedError::Json(fault)),
    }
}

/// The document of a value says what the value says: flags, whole numbers and texts are themselves,
/// bytes are the list of their numbers, and a list is the list of the documents of its items.
pub proof fn law_document_says_what_the_value_says(v: MpModel)
    ensures
        v is Nil ==> json_of(v) is Null,
        v matches MpModel::Bool(b) ==> json_of(v).flag() == Some(b),
        v matches MpModel::Integer { unsigned: Some(n), .. } ==> json_of(v).unsigned() == Some(n),
        v matches MpModel::Integer { unsigned: None, signed: Some(n) } ==> json_of(v).signed()
            == Some(n),
        v matches MpModel::Text(Some(s)) ==> json_of(v).text() == Some(s),
        v matches MpModel::Binary(b) ==> {
            &&& json_of(v) matches JsonModel::List(items)
            &&& items.len() == b.len()
            &&& forall|i: int| 0 <= i < b.len() ==> (#[trigger] items[i]).unsigned() == Some(
                b[i] as u64,
            )
        },
        v matches MpModel::List(list) ==> {
            &&& json_of(v) matches JsonModel::List(items)
            &&& items.len() == list.len()
            &&& forall|i: int| 0 <= i < list.len() ==> #[trigger] items[i] == json_of(list[i])
        },
        v is Table ==> json_of(v) is Table,
{
    if let MpModel::Integer { unsigned: None, signed: Some(n) } = v {
        json::law_numbers_read_back(n, 0);
    }
    if let MpModel::Table(pairs) = v {
        lemma_fields_are_a_table(pairs, pairs.len());
    }
}

proof fn lemma_fields_are_a_table(pairs: Seq<(MpModel, MpModel)>, n: nat)
    ensures
        fields_of(pairs, n) is Table,
    decreases n,
{
    if n > 0 && n <= pairs.len() {
        lemma_fields_are_a_table(pairs, (n - 1) as nat);
    }
}

/// An entry of a map is the member under its key, unless a later one has the same key; a key that
/// no entry has, no member has.
pub proof fn law_entry_is_the_member_under_its_key(
    pairs: Seq<(MpModel, MpModel)>,
    key: Seq<char>,
    i: int,
)
    requires
        0 <= i <= pairs.len(),
        i < pairs.len() ==> pairs[i].0 == MpModel::Text(Some(key)),
        forall|k: int|
            i < k < pairs.len() ==> (#[trigger] pairs[k]).0 != MpModel::Text(Some(key)) && !(
            pairs[k].0 is Text && key.len() == 0),
        i == pairs.len() ==> forall|k: int|
            0 <= k < pairs.len() ==> (#[trigger] pairs[k]).0 != MpModel::Text(Some(key)) && !(
            pairs[k].0 is Text && key.len() == 0),
    ensures
        i < pairs.len() ==> json_of(MpModel::Table(pairs)).field(key) == Some(
            json_of(pairs[i].1),
        ),
        i == pairs.len() ==> json_of(MpModel::Table(pairs)).field(key) is None,
{
    lemma_entry_is_the_member(pairs, key, i, pairs.len());
}

proof fn lemma_entry_is_the_member(
    pairs: Seq<(MpModel, MpModel)>,
    key: Seq<char>,
    i: int,
    n: nat,
)
    requires
        0 <= i <= pairs.len(),
        n <= pairs.len(),
        i < pairs.len() ==> pairs[i].0 == MpModel::Text(Some(key)) && i < n,
        forall|k: int|
            0 <= k < n && (i < k || i == pairs.len()) ==> (#[trigger] pairs[k]).0 != MpModel::Text(
                Some(key),
            ) && !(pairs[k].0 is Text && key.len() == 0),
    ensures
        i < pairs.len() ==> fields_of(pairs, n).field(key) == Some(json_of(pairs[i].1)),
        i == pairs.len() ==> fields_of(pairs, n).field(key) is None,
    decreases n,
{
    if n > 0 {
        let before = fields_of(pairs, (n - 1) as nat);
        lemma_fields_are_a_table(pairs, (n - 1) as nat);
        let last = pairs[n - 1];
        if i == n - 1 {
            json::law_field_after_with(before, key, json_of(last.1));
        } else {
            lemma_entry_is_the_member(pairs, key, i, (n - 1) as nat);
            if let MpModel::Text(other) = last.0 {
                assert(text_or_empty(other) != key) by {
                    if let Some(s) = other {
                        assert(MpModel::Text(Some(s)) != MpModel::Text(Some(key)));
                    } else if key.len() > 0 {
                        assert(text_or_empty(other).len() == 0);
                    }
                }
                json::law_with_keeps_other_fields(
                    before,
                    text_or_empty(other),
                    json_of(last.1),
                    key,
                );
            }
        }
    } else {
        json::law_bare_object_has_no_member(key);
    }
}

/// A number in floating point stays a number in the document with the same bits, unless it stands
/// for no finite number: then there is none.
pub proof fn law_finite_numbers_stay(single: u32, double: u64)
    ensures
        single % 0x8000_0000 < 0x7f80_0000 ==> json_of(MpModel::Single(single))
            == JsonModel::Number(JsonNumber::Single(single)),
        single % 0x8000_0000 >= 0x7f80_0000 ==> json_of(MpModel::Single(single)) is Null,
        double % 0x8000_0000_0000_0000 < 0x7ff0_0000_0000_0000 ==> json_of(MpModel::Double(double))
            == JsonModel::Number(JsonNumber::Double(double)),
        double % 0x8000_0000_0000_0000 >= 0x7ff0_0000_0000_0000 ==> json_of(MpModel::Double(double))
            is Null,
{
}

} // verus!
