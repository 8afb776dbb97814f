//! JSON documents as the daemon reads, edits and builds them.
use crate::text;
use vstd::prelude::*;

verus! {

/// A JSON number. Fractions are carried by their IEEE 754 bit pattern.
#[derive(Clone, Copy, Debug, PartialEq, Eq, Structural)]
pub enum JsonNumber {
    Unsigned(u64),
    Negative(i64),
    Single(u32),
    Double(u64),
}

/// A JSON document.
#[derive(Debug)]
pub enum Json {
    Null,
    Bool(bool),
    Number(JsonNumber),
    Text(String),
    List(Vec<Json>),
    Table(Vec<JsonField>),
}

/// A member of a JSON object.
#[derive(Debug)]
pub struct JsonField {
    pub key: String,
    pub value: Json,
}

/// What a JSON document says, apart from how it is stored.
pub enum JsonModel {
    Null,
    Bool(bool),
    Number(JsonNumber),
    Text(Seq<char>),
    List(Seq<JsonModel>),
    Table(Seq<(Seq<char>, JsonModel)>),
}

impl View for Json {
    type V = JsonModel;

    open spec fn view(&self) -> JsonModel
        decreases self,
    {
        match self {
            Json::Null => JsonModel::Null,
            Json::Bool(b) => JsonModel::Bool(*b),
            Json::Number(n) => JsonModel::Number(*n),
            Json::Text(s) => JsonModel::Text(s@),
            Json::List(items) => JsonModel::List(
                Seq::new(items@.len(), |i: int| if 0 <= i < items@.len() { items@[i].view() } else { JsonModel::Null }),
            ),
            Json::Table(fields) => JsonModel::Table(
                Seq::new(fields@.len(), |i: int| if 0 <= i < fields@.len() { (fields@[i].key@, fields@[i].value.view()) } else { (Seq::empty(), JsonModel::Null) }),
            ),
        }
    }
}

/// What the model of a list or an object holds, position by position.
pub broadcast proof fn lemma_json_view(doc: Json)
    ensures
        #![trigger doc.view()]
        doc matches Json::List(items) ==> {
            &&& doc.view() matches JsonModel::List(model)
            &&& model.len() == items@.len()
            &&& forall|i: int| 0 <= i < items@.len() ==> #[trigger] model[i] == items@[i].view()
        },
        doc matches Json::Table(fields) ==> {
            &&& doc.view() matches JsonModel::Table(model)
            &&& model.len() == fields@.len()
            &&& forall|i: int|
                0 <= i < fields@.len() ==> #[trigger] model[i] == (
                    fields@[i].key@,
                    fields@[i].value.view(),
                )
        },
{
    reveal_with_fuel(<Json as View>::view, 2);
}

impl Clone for Json {
    fn clone(&self) -> (r: Json)
        ensures
            r@ == self@,
        decreases self,
    {
        broadcast use lemma_json_view;

        match self {
            Json::Null => Json::Null,
            Json::Bool(b) => Json::Bool(*b),
            Json::Number(n) => Json::Number(*n),
            Json::Text(s) => Json::Text(s.clone()),
            Json::List(items) => {
                let mut out: Vec<Json> = Vec::new();
                let mut i: usize = 0;
                while i < items.len()
                    invariant
                        i <= items.len(),
                        out@.len() == i,
                        decreases_to!(self => items),
                        forall|k: int| 0 <= k < i ==> out@[k]@ == items@[k]@,
                    decreases items.len() - i,
                {
                    out.push(items[i].clone());
                    i += 1;
                }
                let r = Json::List(out);
                assert(r@->List_0 =~= self@->List_0);
                r
            },
            Json::Table(fields) => {
                let mut out: Vec<JsonField> = Vec::new();
                let mut i: usize = 0;
                while i < fields.len()
                    invariant
                        i <= fields.len(),
                        out@.len() == i,
                        decreases_to!(self => fields),
                        forall|k: int|
                            0 <= k < i ==> (#[trigger] out@[k]).key@ == fields@[k].key@ && out@[k].value@
                                == fields@[k].value@,
                    decreases fields.len() - i,
                {
                    out.push(JsonField { key: fields[i].key.clone(), value: fields[i].value.clone() });
                    i += 1;
                }
                let r = Json::Table(out);
                assert(r@->Table_0 =~= self@->Table_0);
                r
            },
        }
    }
}

/// The position of the first member with a key, or the number of members where none has it.
pub open spec fn position(fields: Seq<(Seq<char>, JsonModel)>, key: Seq<char>) -> nat
    decreases fields.len(),
{
    if fields.len() == 0 || fields[0].0 == key {
        0
    } else {
        1 + position(fields.drop_first(), key)
    }
}

/// No two members have the same key.
pub open spec fn distinct(fields: Seq<(Seq<char>, JsonModel)>) -> bool {
    forall|i: int, j: int|
        0 <= i < j < fields.len() ==> (#[trigger] fields[i]).0 != (#[trigger] fields[j]).0
}

impl JsonModel {
    /// The object without members.
    pub open spec fn table() -> JsonModel {
        JsonModel::Table(Seq::empty())
    }

    /// The object with one more member at its end.
    pub open spec fn and(self, key: Seq<char>, value: JsonModel) -> JsonModel {
        match self {
            JsonModel::Table(fields) => JsonModel::Table(fields.push((key, value))),
            _ => self,
        }
    }

    /// The member of an object with a key; none where there is no such member or this is no
    /// object.
    pub open spec fn field(self, key: Seq<char>) -> Option<JsonModel> {
        match self {
            JsonModel::Table(fields) => if position(fields, key) < fields.len() {
                Some(fields[position(fields, key) as int].1)
            } else {
                None
            },
            _ => None,
        }
    }

    /// The document with the member `key` set: replaced where it stands, appended where it is
    /// missing. A null document becomes an object first.
    pub open spec fn with(self, key: Seq<char>, value: JsonModel) -> JsonModel {
        match self {
            JsonModel::Table(fields) => {
                let i = position(fields, key) as int;
                if i < fields.len() {
                    JsonModel::Table(fields.update(i, (key, value)))
                } else {
                    JsonModel::Table(fields.push((key, value)))
                }
            },
            JsonModel::Null => JsonModel::Table(seq![(key, value)]),
            _ => self,
        }
    }

    /// Whether members can be set in the document.
    pub open spec fn takes_fields(self) -> bool {
        self is Table || self is Null
    }

    pub open spec fn text(self) -> Option<Seq<char>> {
        match self {
            JsonModel::Text(s) => Some(s),
            _ => None,
        }
    }

    pub open spec fn flag(self) -> Option<bool> {
        match self {
            JsonModel::Bool(b) => Some(b),
            _ => None,
        }
    }

    /// The number, where it is an integer of 64 bits without sign.
    pub open spec fn unsigned(self) -> Option<u64> {
        match self {
            JsonModel::Number(JsonNumber::Unsigned(n)) => Some(n),
            _ => None,
        }
    }

    /// The number, where it is an integer of 64 bits with a sign.
    pub open spec fn signed(self) -> Option<i64> {
        match self {
            JsonModel::Number(JsonNumber::Unsigned(n)) => if n <= i64::MAX {
                Some(n as i64)
            } else {
                None
            },
            JsonModel::Number(JsonNumber::Negative(n)) => Some(n),
            _ => None,
        }
    }

    /// The member `key` as a text.
    pub open spec fn text_field(self, key: Seq<char>) -> Option<Seq<char>> {
        match self.field(key) {
            Some(v) => v.text(),
            None => None,
        }
    }

    /// The member `key` as an integer without sign.
    pub open spec fn unsigned_field(self, key: Seq<char>) -> Option<u64> {
        match self.field(key) {
            Some(v) => v.unsigned(),
            None => None,
        }
    }

    /// The member `key` as an integer with a sign.
    pub open spec fn signed_field(self, key: Seq<char>) -> Option<i64> {
        match self.field(key) {
            Some(v) => v.signed(),
            None => None,
        }
    }

    /// The member `key` as a flag.
    pub open spec fn flag_field(self, key: Seq<char>) -> Option<bool> {
        match self.field(key) {
            Some(v) => v.flag(),
            None => None,
        }
    }

    /// Every object in the document has distinct keys.
    pub open spec fn well_formed(self) -> bool
        decreases self,
    {
        match self {
            JsonModel::List(items) => forall|i: int|
                0 <= i < items.len() ==> (#[trigger] items[i]).well_formed(),
            JsonModel::Table(fields) => distinct(fields) && forall|i: int|
                0 <= i < fields.len() ==> (#[trigger] fields[i]).1.well_formed(),
            _ => true,
        }
    }
}

/// What `position` finds, and that nothing earlier has the key.
pub proof fn lemma_position(fields: Seq<(Seq<char>, JsonModel)>, key: Seq<char>)
    ensures
        position(fields, key) <= fields.len(),
        position(fields, key) < fields.len() ==> fields[position(fields, key) as int].0 == key,
        forall|k: int| 0 <= k < position(fields, key) ==> (#[trigger] fields[k]).0 != key,
    decreases fields.len(),
{
    if fields.len() > 0 && fields[0].0 != key {
        lemma_position(fields.drop_first(), key);
        assert forall|k: int| 0 <= k < position(fields, key) implies (#[trigger] fields[k]).0
            != key by {
            if k > 0 {
                assert(fields.drop_first()[k - 1] == fields[k]);
            }
        }
    }
}

/// A position with the key and nothing earlier with it is the one that `position` finds.
pub proof fn lemma_position_is(fields: Seq<(Seq<char>, JsonModel)>, key: Seq<char>, i: int)
    requires
        0 <= i <= fields.len(),
        i < fields.len() ==> fields[i].0 == key,
        forall|k: int| 0 <= k < i ==> (#[trigger] fields[k]).0 != key,
    ensures
        position(fields, key) == i,
{
    lemma_position(fields, key);
    let p = position(fields, key) as int;
    if p < i {
        assert(fields[p].0 != key);
    }
    if i < p {
        assert(fields[i].0 != key);
    }
}

/// A member that was set is the one that is found.
pub proof fn law_field_after_with(doc: JsonModel, key: Seq<char>, value: JsonModel)
    requires
        doc.takes_fields(),
    ensures
        doc.with(key, value).field(key) == Some(value),
{
    match doc {
        JsonModel::Table(fields) => {
            lemma_position(fields, key);
            let after = doc.with(key, value)->Table_0;
            lemma_position_is(after, key, position(fields, key) as int);
        },
        _ => {
            lemma_position_is(seq![(key, value)], key, 0);
        },
    }
}

/// Setting one member leaves the others as they were.
pub proof fn law_with_keeps_other_fields(
    doc: JsonModel,
    key: Seq<char>,
    value: JsonModel,
    other: Seq<char>,
)
    requires
        other != key,
    ensures
        doc.with(key, value).field(other) == doc.field(other),
{
    match doc {
        JsonModel::Table(fields) => {
            lemma_position(fields, key);
            lemma_position(fields, other);
            let after = doc.with(key, value)->Table_0;
            let i = position(fields, other) as int;
            if i < fields.len() {
                lemma_position_is(after, other, i);
            } else {
                lemma_position_is(after, other, after.len() as int);
            }
        },
        JsonModel::Null => {
            lemma_position_is(seq![(key, value)], other, 1);
        },
        _ => {},
    }
}

/// Setting a member keeps the keys of every object distinct.
pub proof fn law_with_keeps_well_formed(doc: JsonModel, key: Seq<char>, value: JsonModel)
    requires
        doc.well_formed(),
        value.well_formed(),
    ensures
        doc.with(key, value).well_formed(),
{
    match doc {
        JsonModel::Table(fields) => {
            lemma_position(fields, key);
        },
        _ => {},
    }
}

impl Json {
    /// A text value.
    pub fn text(s: &str) -> (r: Json)
        ensures
            r@ == JsonModel::Text(s@),
    {
        Json::Text(s.to_owned())
    }

    /// A whole number.
    pub fn unsigned(n: u64) -> (r: Json)
        ensures
            r@ == JsonModel::Number(JsonNumber::Unsigned(n)),
    {
        Json::Number(JsonNumber::Unsigned(n))
    }

    /// An integer with a sign, which is stored without one where it is not negative.
    pub fn signed(n: i64) -> (r: Json)
        ensures
            r@ == JsonModel::Number(signed_number(n)),
    {
        if n >= 0 {
            Json::Number(JsonNumber::Unsigned(n as u64))
        } else {
            Json::Number(JsonNumber::Negative(n))
        }
    }

    /// The object without members.
    pub fn table() -> (r: Json)
        ensures
            r@ == JsonModel::table(),
    {
        broadcast use lemma_json_view;

        let r = Json::Table(Vec::new());
        assert(r@->Table_0 =~= Seq::empty());
        r
    }

    /// The object with one more member at its end. A document that is no object stays as it is.
    pub fn and(self, key: &str, value: Json) -> (r: Json)
        ensures
            r@ == self@.and(key@, value@),
    {
        broadcast use lemma_json_view;

        match self {
            Json::Table(fields) => {
                let mut fields = fields;
                let ghost before = self@->Table_0;
                fields.push(JsonField { key: key.to_owned(), value });
                let r = Json::Table(fields);
                assert(r@->Table_0 =~= before.push((key@, value@)));
                r
            },
            other => other,
        }
    }

    /// The member of an object with a key.
    pub fn get(&self, key: &str) -> (r: Option<&Json>)
        ensures
            match r {
                Some(v) => self@.field(key@) == Some(v@),
                None => self@.field(key@) is None,
            },
    {
        broadcast use lemma_json_view;

        match self {
            Json::Table(fields) => {
                let ghost model = self@->Table_0;
                let mut i: usize = 0;
                while i < fields.len()
                    invariant
                        i <= fields.len(),
                        self@ == JsonModel::Table(model),
                        model.len() == fields@.len(),
                        forall|k: int|
                            0 <= k < fields@.len() ==> #[trigger] model[k] == (
                            fields@[k].key@,
                            fields@[k].value@,
                        ),
                        forall|k: int| 0 <= k < i ==> (#[trigger] model[k]).0 != key@,
                    decreases fields.len() - i,
                {
                    if text::same(fields[i].key.as_str(), key) {
                        proof {
                            lemma_position_is(model, key@, i as int);
                        }
                        return Some(&fields[i].value);
                    }
                    i += 1;
                }
                proof {
                    lemma_position_is(model, key@, i as int);
                }
                None
            },
            _ => None,
        }
    }

    /// Sets the member of an object with a key.
    pub fn set(&mut self, key: &str, value: Json)
        requires
            old(self)@.takes_fields(),
        ensures
            final(self)@ == old(self)@.with(key@, value@),
    {
        broadcast use lemma_json_view;

        let ghost before = self@;
        let mut fields: Vec<JsonField> = Vec::new();
        if let Json::Table(own) = self {
            core::mem::swap(own, &mut fields);
        }
        let ghost model = Seq::new(
            fields@.len(),
            |k: int| (fields@[k].key@, fields@[k].value@),
        );
        assert(before is Table ==> before->Table_0 =~= model);
        let mut i: usize = 0;
        while i < fields.len() && !text::same(fields[i].key.as_str(), key)
            invariant
                i <= fields.len(),
                model.len() == fields@.len(),
                forall|k: int|
                    0 <= k < fields@.len() ==> #[trigger] model[k] == (
                        fields@[k].key@,
                        fields@[k].value@,
                    ),
                forall|k: int| 0 <= k < i ==> (#[trigger] model[k]).0 != key@,
            decreases fields.len() - i,
        {
            i += 1;
        }
        proof {
            lemma_position_is(model, key@, i as int);
        }
        let field = JsonField { key: key.to_owned(), value };
        if i < fields.len() {
            fields.set(i, field);
        } else {
            fields.push(field);
        }
        *self = Json::Table(fields);
        assert(self@->Table_0 =~= before.with(key@, value@)->Table_0);
    }

    pub fn as_str(&self) -> (r: Option<&str>)
        ensures
            match r {
                Some(s) => self@.text() == Some(s@),
                None => self@.text() is None,
            },
    {
        match self {
            Json::Text(s) => Some(s.as_str()),
            _ => None,
        }
    }

    pub fn as_bool(&self) -> (r: Option<bool>)
        ensures
            r == self@.flag(),
    {
        match self {
            Json::Bool(b) => Some(*b),
            _ => None,
        }
    }

    pub fn as_u64(&self) -> (r: Option<u64>)
        ensures
            r == self@.unsigned(),
    {
        match self {
            Json::Number(JsonNumber::Unsigned(n)) => Some(*n),
            _ => None,
        }
    }

    pub fn as_i64(&self) -> (r: Option<i64>)
        ensures
            r == self@.signed(),
    {
        match self {
            Json::Number(JsonNumber::Unsigned(n)) => if *n <= 0x7fff_ffff_ffff_ffff {
                Some(*n as i64)
            } else {
                None
            },
            Json::Number(JsonNumber::Negative(n)) => Some(*n),
            _ => None,
        }
    }

    /// The member `key` where it is a text.
    pub fn get_str(&self, key: &str) -> (r: Option<&str>)
        ensures
            match r {
                Some(s) => self@.text_field(key@) == Some(s@),
                None => self@.text_field(key@) is None,
            },
    {
        match self.get(key) {
            Some(v) => v.as_str(),
            None => None,
        }
    }

    /// The member `key` where it is a flag.
    pub fn get_bool(&self, key: &str) -> (r: Option<bool>)
        ensures
            r == self@.flag_field(key@),
    {
        match self.get(key) {
            Some(v) => v.as_bool(),
            None => None,
        }
    }

    /// The member `key` where it is an integer without sign.
    pub fn get_u64(&self, key: &str) -> (r: Option<u64>)
        ensures
            r == self@.unsigned_field(key@),
    {
        match self.get(key) {
            Some(v) => v.as_u64(),
            None => None,
        }
    }

    /// The member `key` where it is an integer with a sign.
    pub fn get_i64(&self, key: &str) -> (r: Option<i64>)
        ensures
            r == self@.signed_field(key@),
    {
        match self.get(key) {
            Some(v) => v.as_i64(),
            None => None,
        }
    }
}

/// How an integer with a sign is stored.
pub open spec fn signed_number(n: i64) -> JsonNumber {
    if n >= 0 {
        JsonNumber::Unsigned(n as u64)
    } else {
        JsonNumber::Negative(n)
    }
}

/// A member that was put at the end of an object is the one that is found, unless there was one
/// under its key before, and the other members are found as before.
pub proof fn law_member_is_found(doc: JsonModel, key: Seq<char>, value: JsonModel)
    requires
        doc is Table,
    ensures
        doc.and(key, value) is Table,
        doc.field(key) is None ==> doc.and(key, value).field(key) == Some(value),
        doc.field(key) is Some ==> doc.and(key, value).field(key) == doc.field(key),
        forall|other: Seq<char>|
            other != key ==> #[trigger] doc.and(key, value).field(other) == doc.field(other),
{
    let fields = doc->Table_0;
    let after = doc.and(key, value)->Table_0;
    lemma_position(fields, key);
    lemma_position_is(after, key, position(fields, key) as int);
    assert forall|other: Seq<char>| other != key implies #[trigger] doc.and(key, value).field(other)
        == doc.field(other) by {
        lemma_position(fields, other);
        let i = position(fields, other) as int;
        lemma_position_is(
            after,
            other,
            if i < fields.len() {
                i
            } else {
                after.len() as int
            },
        );
    }
}

/// An object without members has none under any key.
pub proof fn law_bare_object_has_no_member(key: Seq<char>)
    ensures
        JsonModel::table() is Table,
        JsonModel::table().field(key) is None,
{
}

/// A number that was put into a document is the one that is read from it.
pub proof fn law_numbers_read_back(n: i64, m: u64)
    ensures
        JsonModel::Number(signed_number(n)).signed() == Some(n),
        JsonModel::Number(signed_number(n)).unsigned() == if n < 0 {
            None
        } else {
            Some(n as u64)
        },
        JsonModel::Number(JsonNumber::Unsigned(m)).unsigned() == Some(m),
        JsonModel::Number(JsonNumber::Unsigned(m)).signed() is Some <==> m <= i64::MAX,
        JsonModel::Number(JsonNumber::Unsigned(m)).signed() matches Some(k) ==> k == m,
{
}

} // verus!
