//! The addresses of Bluetooth devices.
use crate::text;
use std::str::FromStr;
use vstd::prelude::*;

verus! {

/// The six bytes of a device's address, in the order in which they are written.
#[derive(Clone, Copy, Debug, PartialEq, Eq, Structural)]
pub struct DeviceAddress(pub u8, pub u8, pub u8, pub u8, pub u8, pub u8);

impl View for DeviceAddress {
    type V = Seq<u8>;

    open spec fn view(&self) -> Seq<u8> {
        seq![self.0, self.1, self.2, self.3, self.4, self.5]
    }
}

impl DeviceAddress {
    /// The address as it is written.
    pub open spec fn chars(self) -> Seq<char> {
        text::hex_byte(self.0) + seq![':'] + text::hex_byte(self.1) + seq![':'] + text::hex_byte(
            self.2,
        ) + seq![':'] + text::hex_byte(self.3) + seq![':'] + text::hex_byte(self.4) + seq![':']
            + text::hex_byte(self.5)
    }
}

/// The runs of a text between its colons.
pub open spec fn fields(s: Seq<char>) -> Seq<Seq<char>>
    decreases s.len(),
{
    if s.len() == 0 {
        seq![Seq::empty()]
    } else {
        let before = fields(s.drop_last());
        if s.last() == ':' {
            before.push(Seq::empty())
        } else {
            before.drop_last().push(before.last().push(s.last()))
        }
    }
}

/// The value of a hexadecimal digit, where a character is one.
pub open spec fn hex_digit_value(c: char) -> Option<int> {
    if '0' <= c <= '9' {
        Some(c as int - '0' as int)
    } else if 'a' <= c <= 'f' {
        Some(c as int - 'a' as int + 10)
    } else if 'A' <= c <= 'F' {
        Some(c as int - 'A' as int + 10)
    } else {
        None
    }
}

/// The number that hexadecimal digits spell, where a text is made of them.
pub open spec fn hex_value(s: Seq<char>) -> Option<int>
    decreases s.len(),
{
    if s.len() == 0 {
        Some(0)
    } else {
        match (hex_value(s.drop_last()), hex_digit_value(s.last())) {
            (Some(high), Some(low)) => Some(high * 16 + low),
            _ => None,
        }
    }
}

/// The byte that a text spells: a number of hexadecimal digits, at least one, that may have a plus
/// before them.
pub open spec fn hex_field(s: Seq<char>) -> Option<u8> {
    let digits = if s.len() > 0 && s[0] == '+' {
        s.skip(1)
    } else {
        s
    };
    match hex_value(digits) {
        Some(n) => if digits.len() > 0 && n <= 255 {
            Some(n as u8)
        } else {
            None
        },
        None => None,
    }
}

/// The bytes of the address that a text stands for, where it stands for one: six bytes between
/// colons.
pub open spec fn address_bytes(text: Seq<char>) -> Option<Seq<u8>> {
    let runs = fields(text);
    if runs.len() == 6 && forall|i: int| 0 <= i < 6 ==> hex_field(#[trigger] runs[i]) is Some {
        Some(Seq::new(6, |i: int| hex_field(runs[i])->Some_0))
    } else {
        None
    }
}

/// `bluer::Address::from_str` splits a text at its colons and reads each run with
/// `u8::from_str_radix` as a hexadecimal number. It succeeds where there are six and each is a
/// byte, and gives them in the order in which they stand.
#[verifier::external_body]
pub(crate) fn read_address(text: &str) -> (r: Option<DeviceAddress>)
    ensures
        match r {
            Some(a) => address_bytes(text@) == Some(a@),
            None => address_bytes(text@) is None,
        },
{
    match bluer::Address::from_str(text) {
        Ok(a) => Some(DeviceAddress(a.0[0], a.0[1], a.0[2], a.0[3], a.0[4], a.0[5])),
        Err(_) => None,
    }
}

/// `to_string` of `bluer::Address` writes the six bytes in capital hexadecimal digits, two for
/// each, with colons between them.
#[verifier::external_body]
pub(crate) fn write_address(address: DeviceAddress) -> (r: String)
    ensures
        r@ == address.chars(),
{
    let a = address;
    bluer::Address::new([a.0, a.1, a.2, a.3, a.4, a.5]).to_string()
}

proof fn lemma_byte_in_hex(b: u8)
    ensures
        hex_field(text::hex_byte(b)) == Some(b),
        text::hex_byte(b).len() == 2,
        text::hex_byte(b)[0] != ':',
        text::hex_byte(b)[1] != ':',
{
    let s = text::hex_byte(b);
    let high = text::hex_digit((b / 16) as int);
    assert(s.drop_last() =~= seq![high]);
    assert(seq![high].drop_last() =~= Seq::<char>::empty());
    assert(hex_value(Seq::<char>::empty()) == Some(0int));
    assert(hex_value(seq![high]) == Some((b / 16) as int));
    assert(hex_value(s) == Some((b / 16) * 16 + b % 16));
}

proof fn lemma_fields_with_byte(s: Seq<char>, b: u8)
    requires
        fields(s).len() > 0,
        fields(s).last() == Seq::<char>::empty(),
    ensures
        fields(s + text::hex_byte(b)) == fields(s).drop_last().push(text::hex_byte(b)),
        fields(s + text::hex_byte(b) + seq![':']) == fields(s).drop_last().push(
            text::hex_byte(b),
        ).push(Seq::empty()),
{
    lemma_byte_in_hex(b);
    let h = text::hex_byte(b);
    let whole = s + h;
    let half = s.push(h[0]);
    assert(whole.drop_last() =~= half);
    assert(half.drop_last() =~= s);
    assert(fields(half) =~= fields(s).drop_last().push(seq![h[0]]));
    assert(fields(half).drop_last() =~= fields(s).drop_last());
    assert(fields(half).last().push(h[1]) =~= h);
    assert((whole + seq![':']).drop_last() =~= whole);
}

/// An address reads back from what was written.
pub proof fn law_written_address_reads_back(a: DeviceAddress)
    ensures
        address_bytes(a.chars()) == Some(a@),
{
    let colon = seq![':'];
    let s0 = Seq::<char>::empty();
    let s1 = s0 + text::hex_byte(a.0) + colon;
    let s2 = s1 + text::hex_byte(a.1) + colon;
    let s3 = s2 + text::hex_byte(a.2) + colon;
    let s4 = s3 + text::hex_byte(a.3) + colon;
    let s5 = s4 + text::hex_byte(a.4) + colon;
    let e = Seq::<char>::empty();
    lemma_fields_with_byte(s0, a.0);
    assert(fields(s1) =~= seq![text::hex_byte(a.0), e]);
    lemma_fields_with_byte(s1, a.1);
    assert(fields(s2) =~= seq![text::hex_byte(a.0), text::hex_byte(a.1), e]);
    lemma_fields_with_byte(s2, a.2);
    assert(fields(s3) =~= fields(s2).drop_last().push(text::hex_byte(a.2)).push(e));
    lemma_fields_with_byte(s3, a.3);
    assert(fields(s4) =~= fields(s3).drop_last().push(text::hex_byte(a.3)).push(e));
    lemma_fields_with_byte(s4, a.4);
    assert(fields(s5) =~= fields(s4).drop_last().push(text::hex_byte(a.4)).push(e));
    lemma_fields_with_byte(s5, a.5);
    assert(s5 + text::hex_byte(a.5) =~= a.chars());
    let runs = fields(a.chars());
    assert(runs =~= seq![
        text::hex_byte(a.0),
        text::hex_byte(a.1),
        text::hex_byte(a.2),
        text::hex_byte(a.3),
        text::hex_byte(a.4),
        text::hex_byte(a.5),
    ]);
    lemma_byte_in_hex(a.0);
    lemma_byte_in_hex(a.1);
    lemma_byte_in_hex(a.2);
    lemma_byte_in_hex(a.3);
    lemma_byte_in_hex(a.4);
    lemma_byte_in_hex(a.5);
    assert(address_bytes(a.chars())->Some_0 =~= a@);
}

impl DeviceAddress {
    /// Reads an address.
    pub fn parse(text: &str) -> (r: Option<DeviceAddress>)
        ensures
            match r {
                Some(a) => address_bytes(text@) == Some(a@),
                None => address_bytes(text@) is None,
            },
    {
        read_address(text)
    }

    /// The address as it is written.
    pub fn to_text(&self) -> (r: String)
        ensures
            r@ == self.chars(),
            address_bytes(r@) == Some(self@),
    {
        proof {
            law_written_address_reads_back(*self);
        }
        write_address(*self)
    }
}

/// No two addresses are written alike.
pub proof fn law_addresses_are_written_apart(a: DeviceAddress, b: DeviceAddress)
    requires
        a.chars() == b.chars(),
    ensures
        a == b,
{
    law_written_address_reads_back(a);
    law_written_address_reads_back(b);
    assert forall|i: int| 0 <= i < 6 implies #[trigger] a@[i] == b@[i] by {}
    assert(a@[0] == a.0 && a@[1] == a.1 && a@[2] == a.2 && a@[3] == a.3 && a@[4] == a.4 && a@[5]
        == a.5);
}

/// Two hexadecimal digits, in capitals or not, stand for the byte that they spell.
pub proof fn law_two_digits_spell_a_byte(high: char, low: char)
    requires
        hex_digit_value(high) is Some,
        hex_digit_value(low) is Some,
    ensures
        hex_field(seq![high, low]) matches Some(b) && b == hex_digit_value(high)->0 * 16
            + hex_digit_value(low)->0,
        hex_digit_value(text::upper(high)) == hex_digit_value(high),
        0 <= hex_digit_value(high)->0 < 16,
{
    let s = seq![high, low];
    assert(s.drop_last() =~= seq![high]);
    assert(seq![high].drop_last() =~= Seq::<char>::empty());
    reveal_with_fuel(hex_value, 3);
}

/// An address has six bytes and is written with five colons; nothing else is read as one.
pub proof fn law_address_has_six_bytes(s: Seq<char>)
    ensures
        address_bytes(s) matches Some(bytes) ==> bytes.len() == 6 && s.filter(
            |c: char| c == ':',
        ).len() == 5,
{
    lemma_fields_by_colons(s);
}

proof fn lemma_fields_by_colons(s: Seq<char>)
    ensures
        fields(s).len() == s.filter(|c: char| c == ':').len() + 1,
    decreases s.len(),
{
    reveal(Seq::filter);
    if s.len() > 0 {
        lemma_fields_by_colons(s.drop_last());
    }
}

} // verus!
