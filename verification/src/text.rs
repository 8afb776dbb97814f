//! Operations on text, stated over the sequence of its characters.
use vstd::prelude::*;
use vstd::utf8::*;

verus! {

/// `String::push` puts the character at the end of the text.
pub assume_specification[ String::push ](s: &mut String, ch: char)
    ensures
        final(s)@ == old(s)@.push(ch),
;

/// The characters of a text, where there is one.
pub open spec fn optional_text(s: Option<String>) -> Option<Seq<char>> {
    match s {
        Some(s) => Some(s@),
        None => None,
    }
}

/// The characters of a text, one by one.
pub fn chars_of(s: &str) -> (r: Vec<char>)
    ensures
        r@ == s@,
{
    let mut out: Vec<char> = Vec::new();
    for c in it: s.chars()
        invariant
            it.seq() == s@,
            out@ == s@.take(it.index() as int),
    {
        out.push(c);
        assert(s@.take(it.index() as int).push(c) =~= s@.take(it.index() as int + 1));
    }
    assert(s@.take(s@.len() as int) =~= s@);
    out
}

/// The text made of the characters from `from` up to `to`.
pub fn text_of(chars: &Vec<char>, from: usize, to: usize) -> (r: String)
    requires
        from <= to <= chars@.len(),
    ensures
        r@ == chars@.subrange(from as int, to as int),
{
    let mut out = String::new();
    let mut i: usize = from;
    while i < to
        invariant
            from <= i <= to <= chars@.len(),
            out@ == chars@.subrange(from as int, i as int),
        decreases to - i,
    {
        out.push(chars[i]);
        i += 1;
        assert(chars@.subrange(from as int, i as int) =~= chars@.subrange(from as int, i - 1).push(
            chars@[i - 1],
        ));
    }
    out
}

/// Whether two texts are the same.
pub fn same(a: &str, b: &str) -> (r: bool)
    ensures
        r == (a@ == b@),
{
    let x = a.as_bytes();
    let y = b.as_bytes();
    proof {
        encode_utf8_decode_utf8(a@);
        encode_utf8_decode_utf8(b@);
    }
    if x.len() != y.len() {
        return false;
    }
    let mut i: usize = 0;
    while i < x.len()
        invariant
            x@ == encode_utf8(a@),
            y@ == encode_utf8(b@),
            x@.len() == y@.len(),
            i <= x@.len(),
            forall|k: int| 0 <= k < i ==> x@[k] == y@[k],
        decreases x@.len() - i,
    {
        if x[i] != y[i] {
            return false;
        }
        i += 1;
    }
    assert(x@ =~= y@);
    true
}

/// A text followed by another.
pub fn joined(a: &str, b: &str) -> (r: String)
    ensures
        r@ == a@ + b@,
{
    let mut out = a.to_owned();
    out.append(b);
    out
}

/// Whether a text begins with another.
pub fn starts_with(s: &str, prefix: &str) -> (r: bool)
    ensures
        r == prefix@.is_prefix_of(s@),
{
    let x = chars_of(s);
    let y = chars_of(prefix);
    if y.len() > x.len() {
        return false;
    }
    matches_at(&x, &y, 0)
}

/// `pattern` stands in `s` at position `i`.
pub open spec fn occurs_at(s: Seq<char>, pattern: Seq<char>, i: int) -> bool {
    &&& 0 <= i <= s.len() - pattern.len()
    &&& s.subrange(i, i + pattern.len()) == pattern
}

fn matches_at(s: &Vec<char>, pattern: &Vec<char>, i: usize) -> (r: bool)
    requires
        i + pattern@.len() <= s@.len(),
    ensures
        r == occurs_at(s@, pattern@, i as int),
        i == 0 ==> r == pattern@.is_prefix_of(s@),
{
    let mut k: usize = 0;
    while k < pattern.len()
        invariant
            k <= pattern.len(),
            i + pattern.len() <= s.len(),
            forall|j: int| 0 <= j < k ==> s@[i + j] == pattern@[j],
        decreases pattern@.len() - k,
    {
        if s[i + k] != pattern[k] {
            assert(s@.subrange(i as int, i + pattern@.len())[k as int] != pattern@[k as int]);
            return false;
        }
        k += 1;
    }
    assert(s@.subrange(i as int, i + pattern@.len()) =~= pattern@);
    true
}

/// `pattern` stands somewhere in `s`.
pub open spec fn holds(s: Seq<char>, pattern: Seq<char>) -> bool {
    exists|i: int| occurs_at(s, pattern, i)
}

/// Whether a text holds another anywhere.
pub fn contains(s: &str, pattern: &str) -> (r: bool)
    ensures
        r == holds(s@, pattern@),
{
    let x = chars_of(s);
    let y = chars_of(pattern);
    if y.len() > x.len() {
        return false;
    }
    let last: usize = x.len() - y.len();
    let mut i: usize = 0;
    while i <= last
        invariant
            x@ == s@,
            y@ == pattern@,
            last == x@.len() - y@.len(),
            i <= last + 1,
            forall|k: int| 0 <= k < i ==> !occurs_at(x@, y@, k),
        decreases last + 1 - i,
    {
        if matches_at(&x, &y, i) {
            return true;
        }
        if i == last {
            return false;
        }
        i += 1;
    }
    false
}

/// What is left of `s` when every occurrence of `pattern`, from the left and without overlap, is
/// taken out.
pub open spec fn without(s: Seq<char>, pattern: Seq<char>) -> Seq<char>
    decreases s.len(),
{
    if pattern.len() == 0 || s.len() < pattern.len() {
        s
    } else if s.take(pattern.len() as int) == pattern {
        without(s.skip(pattern.len() as int), pattern)
    } else {
        seq![s[0]] + without(s.skip(1), pattern)
    }
}

/// Takes every occurrence of a pattern out of a text.
pub fn remove_all(s: &str, pattern: &str) -> (r: String)
    ensures
        r@ == without(s@, pattern@),
{
    let x = chars_of(s);
    let y = chars_of(pattern);
    if y.len() == 0 {
        return s.to_owned();
    }
    let mut out = String::new();
    let mut i: usize = 0;
    assert(x@.skip(0) =~= x@);
    while i < x.len()
        invariant
            x@ == s@,
            y@ == pattern@,
            y@.len() > 0,
            i <= x@.len(),
            without(s@, pattern@) =~= out@ + without(x@.skip(i as int), pattern@),
        decreases x@.len() - i,
    {
        let ghost rest = x@.skip(i as int);
        if y.len() <= x.len() - i && matches_at(&x, &y, i) {
            assert(rest.take(y@.len() as int) =~= x@.subrange(i as int, i + y@.len()));
            assert(rest.skip(y@.len() as int) =~= x@.skip(i + y@.len()));
            i += y.len();
        } else {
            proof {
                if rest.len() >= y@.len() {
                    assert(rest.take(y@.len() as int) =~= x@.subrange(i as int, i + y@.len()));
                } else {
                    assert(rest.skip(1).len() < y@.len());
                }
                assert(rest.skip(1) =~= x@.skip(i + 1));
                assert(seq![rest[0]] + rest.skip(1) =~= rest);
            }
            out.push(x[i]);
            i += 1;
        }
    }
    assert(x@.skip(i as int).len() == 0);
    out
}

/// The characters that Unicode calls white space.
pub open spec fn white_space(c: char) -> bool {
    ||| 0x09 <= c as u32 <= 0x0d
    ||| c as u32 == 0x20
    ||| c as u32 == 0x85
    ||| c as u32 == 0xa0
    ||| c as u32 == 0x1680
    ||| 0x2000 <= c as u32 <= 0x200a
    ||| c as u32 == 0x2028
    ||| c as u32 == 0x2029
    ||| c as u32 == 0x202f
    ||| c as u32 == 0x205f
    ||| c as u32 == 0x3000
}

fn is_white_space(c: char) -> (r: bool)
    ensures
        r == white_space(c),
{
    let u: u32 = c as u32;
    (0x09 <= u && u <= 0x0d) || u == 0x20 || u == 0x85 || u == 0xa0 || u == 0x1680 || (0x2000 <= u
        && u <= 0x200a) || u == 0x2028 || u == 0x2029 || u == 0x202f || u == 0x205f || u == 0x3000
}

/// `s` without the white space that it begins with.
pub open spec fn trimmed_start(s: Seq<char>) -> Seq<char>
    decreases s.len(),
{
    if s.len() > 0 && white_space(s[0]) {
        trimmed_start(s.skip(1))
    } else {
        s
    }
}

/// `s` without the white space that it ends with.
pub open spec fn trimmed_end(s: Seq<char>) -> Seq<char>
    decreases s.len(),
{
    if s.len() > 0 && white_space(s.last()) {
        trimmed_end(s.drop_last())
    } else {
        s
    }
}

/// `s` without the white space at either end.
pub open spec fn trimmed(s: Seq<char>) -> Seq<char> {
    trimmed_end(trimmed_start(s))
}

/// Takes the white space off both ends of a text.
pub fn trim(s: &str) -> (r: String)
    ensures
        r@ == trimmed(s@),
{
    let x = chars_of(s);
    let mut from: usize = 0;
    assert(x@.skip(0) =~= x@);
    while from < x.len() && is_white_space(x[from])
        invariant
            x@ == s@,
            from <= x@.len(),
            trimmed_start(s@) == trimmed_start(x@.skip(from as int)),
        decreases x@.len() - from,
    {
        assert(x@.skip(from as int).skip(1) =~= x@.skip(from + 1));
        from += 1;
    }
    let mut to: usize = x.len();
    assert(x@.subrange(from as int, to as int) =~= x@.skip(from as int));
    while to > from && is_white_space(x[to - 1])
        invariant
            x@ == s@,
            from <= to <= x@.len(),
            trimmed(s@) == trimmed_end(x@.subrange(from as int, to as int)),
        decreases to,
    {
        assert(x@.subrange(from as int, to as int).drop_last() =~= x@.subrange(
            from as int,
            to - 1,
        ));
        to -= 1;
    }
    text_of(&x, from, to)
}

/// `s` without the run of `c` that it begins with.
pub open spec fn without_leading(s: Seq<char>, c: char) -> Seq<char>
    decreases s.len(),
{
    if s.len() > 0 && s[0] == c {
        without_leading(s.skip(1), c)
    } else {
        s
    }
}

/// Takes the run of `c` off the beginning of a text.
pub fn trim_leading(s: &str, c: char) -> (r: String)
    ensures
        r@ == without_leading(s@, c),
{
    let x = chars_of(s);
    let mut from: usize = 0;
    assert(x@.skip(0) =~= x@);
    while from < x.len() && x[from] == c
        invariant
            x@ == s@,
            from <= x@.len(),
            without_leading(s@, c) == without_leading(x@.skip(from as int), c),
        decreases x@.len() - from,
    {
        assert(x@.skip(from as int).skip(1) =~= x@.skip(from + 1));
        from += 1;
    }
    assert(x@.subrange(from as int, x@.len() as int) =~= x@.skip(from as int));
    text_of(&x, from, x.len())
}

/// The decimal digit of a number below ten.
pub open spec fn digit(d: int) -> char {
    (48 + d) as char
}

/// A number in decimal digits, without leading zeros.
pub open spec fn decimal(n: nat) -> Seq<char>
    decreases n,
{
    if n < 10 {
        seq![digit(n as int)]
    } else {
        decimal(n / 10).push(digit((n % 10) as int))
    }
}

/// Writes a number in decimal.
pub fn decimal_text(n: u64) -> (r: String)
    ensures
        r@ == decimal(n as nat),
    decreases n,
{
    let d: u8 = (n % 10) as u8;
    let c: char = (48 + d) as char;
    if n < 10 {
        let mut s = String::new();
        s.push(c);
        assert(s@ =~= decimal(n as nat));
        s
    } else {
        let mut s = decimal_text(n / 10);
        s.push(c);
        s
    }
}

/// A number in decimal, with a sign where it is negative.
pub open spec fn signed_decimal(n: int) -> Seq<char> {
    if n < 0 {
        seq!['-'] + decimal((-n) as nat)
    } else {
        decimal(n as nat)
    }
}

/// Writes a number in decimal, with a sign where it is negative.
pub fn signed_decimal_text(n: i32) -> (r: String)
    ensures
        r@ == signed_decimal(n as int),
{
    if n < 0 {
        let wide: i64 = n as i64;
        let digits = decimal_text((-wide) as u64);
        proof {
            reveal_strlit("-");
        }
        assert("-"@ =~= seq!['-']);
        joined("-", digits.as_str())
    } else {
        decimal_text(n as u64)
    }
}

/// So many zeros.
pub open spec fn zeros(n: nat) -> Seq<char> {
    Seq::new(n, |i: int| '0')
}

/// A number in at least so many decimal digits, with zeros in front where it has fewer.
pub open spec fn padded(n: nat, width: nat) -> Seq<char> {
    let s = decimal(n);
    if s.len() < width {
        zeros((width - s.len()) as nat) + s
    } else {
        s
    }
}

/// Writes a number in at least so many decimal digits.
pub fn padded_text(n: u64, width: usize) -> (r: String)
    ensures
        r@ == padded(n as nat, width as nat),
{
    let digits = decimal_text(n);
    let shown = chars_of(digits.as_str());
    let mut out = String::new();
    let mut i: usize = shown.len();
    assert(out@ =~= zeros(0));
    while i < width
        invariant
            shown@.len() == shown.len(),
            shown.len() <= i,
            i <= width || i == shown.len(),
            out@ == zeros((i - shown@.len()) as nat),
        decreases width - i,
    {
        out.push('0');
        i += 1;
        assert(out@ =~= zeros((i - shown@.len()) as nat));
    }
    out.append(digits.as_str());
    assert(out@ =~= padded(n as nat, width as nat));
    out
}

/// Whether a character is a decimal digit.
pub open spec fn is_digit(c: char) -> bool {
    48 <= c as u32 <= 57
}

/// The number that a run of decimal digits denotes; none for an empty run or where something else
/// stands in it.
pub open spec fn digits_value(s: Seq<char>) -> Option<nat>
    decreases s.len(),
{
    if s.len() == 0 || !is_digit(s.last()) {
        None
    } else if s.len() == 1 {
        Some((s.last() as u32 - 48) as nat)
    } else {
        match digits_value(s.drop_last()) {
            Some(v) => Some((v * 10 + (s.last() as u32 - 48)) as nat),
            None => None,
        }
    }
}

/// The number that a text denotes, with one plus sign allowed in front, where it fits in 32 bits.
pub open spec fn u32_value(s: Seq<char>) -> Option<u32> {
    let run = if s.len() > 1 && s[0] == '+' {
        s.skip(1)
    } else {
        s
    };
    match digits_value(run) {
        Some(v) => if v <= u32::MAX {
            Some(v as u32)
        } else {
            None
        },
        None => None,
    }
}

/// Reads a number that fits in 32 bits.
pub fn parse_u32(s: &str) -> (r: Option<u32>)
    ensures
        r == u32_value(s@),
{
    let x = chars_of(s);
    let from: usize = if x.len() > 1 && x[0] == '+' {
        1
    } else {
        0
    };
    let ghost run = x@.skip(from as int);
    assert(from == 0 ==> run =~= x@);
    if x.len() == from {
        return None;
    }
    let mut over = false;
    let mut acc: u64 = 0;
    let mut i: usize = from;
    while i < x.len()
        invariant
            x@.len() > from,
            from <= i <= x@.len(),
            run == x@.skip(from as int),
            u32_value(s@) == (match digits_value(run) {
                Some(v) if v <= u32::MAX => Some(v as u32),
                _ => None,
            }),
            i == from ==> acc == 0 && !over,
            i > from ==> digits_value(run.take(i - from)) is Some,
            i > from && !over ==> digits_value(run.take(i - from)) == Some(acc as nat) && acc
                <= u32::MAX,
            i > from && over ==> digits_value(run.take(i - from))->0 > u32::MAX,
        decreases x@.len() - i,
    {
        let u: u32 = x[i] as u32;
        let ghost next = run.take(i - from + 1);
        assert(next.drop_last() =~= run.take(i - from));
        assert(next.last() == x@[i as int]);
        if u < 48 || u > 57 {
            proof {
                lemma_digits_value_none(run, i - from);
            }
            return None;
        }
        if !over {
            acc = acc * 10 + (u as u64 - 48);
            if acc > 0xffff_ffff {
                over = true;
            }
        }
        i += 1;
    }
    assert(run.take(i - from) =~= run);
    if over {
        None
    } else {
        Some(acc as u32)
    }
}

/// One character that is no digit spoils the whole run.
proof fn lemma_digits_value_none(s: Seq<char>, i: int)
    requires
        0 <= i < s.len(),
        !is_digit(s[i]),
    ensures
        digits_value(s) is None,
    decreases s.len(),
{
    if i < s.len() - 1 {
        lemma_digits_value_none(s.drop_last(), i);
    }
}

/// A number written in decimal reads back as itself.
pub proof fn law_decimal_reads_back(n: nat)
    ensures
        digits_value(decimal(n)) == Some(n),
        n <= u32::MAX ==> u32_value(decimal(n)) == Some(n as u32),
    decreases n,
{
    lemma_decimal_digits(n);
    if n >= 10 {
        law_decimal_reads_back(n / 10);
        let s = decimal(n);
        assert(s.drop_last() =~= decimal(n / 10));
        lemma_decimal_digits(n / 10);
    }
}

proof fn lemma_leading_zeros(k: nat, s: Seq<char>)
    requires
        digits_value(s) is Some,
    ensures
        digits_value(zeros(k) + s) == digits_value(s),
        k > 0 ==> digits_value(zeros(k)) == Some(0nat),
    decreases s.len(), k,
{
    if k > 1 {
        lemma_leading_zeros((k - 1) as nat, s);
        assert(zeros(k).drop_last() =~= zeros((k - 1) as nat));
    }
    let t = zeros(k) + s;
    if s.len() > 1 {
        lemma_leading_zeros(k, s.drop_last());
        assert(t.drop_last() =~= zeros(k) + s.drop_last());
    } else if k > 0 {
        assert(t.drop_last() =~= zeros(k));
    } else {
        assert(t =~= s);
    }
}

/// A number that is written with zeros in front reads back as itself, and has the digits that were
/// asked for.
pub proof fn law_padding_keeps_the_number(n: nat, width: nat)
    ensures
        padded(n, width).len() >= width,
        digits_value(padded(n, width)) == Some(n),
        n <= u32::MAX ==> u32_value(padded(n, width)) == Some(n as u32),
{
    law_decimal_reads_back(n);
    lemma_decimal_digits(n);
    let s = decimal(n);
    if s.len() < width {
        lemma_leading_zeros((width - s.len()) as nat, s);
    }
}

/// A number in decimal is made of digits.
pub proof fn lemma_decimal_digits(n: nat)
    ensures
        decimal(n).len() > 0,
        forall|i: int| 0 <= i < decimal(n).len() ==> is_digit(#[trigger] decimal(n)[i]),
    decreases n,
{
    if n >= 10 {
        lemma_decimal_digits(n / 10);
    }
}

/// `std::str::from_utf8` reads bytes as text. It succeeds where they are valid UTF-8, and gives the
/// characters that they encode.
#[verifier::external_body]
pub(crate) fn utf8_text(bytes: &[u8]) -> (r: Option<String>)
    ensures
        match r {
            Some(s) => valid_utf8(bytes@) && s@ == decode_utf8(bytes@),
            None => !valid_utf8(bytes@),
        },
{
    std::str::from_utf8(bytes).ok().map(|s| s.to_owned())
}

/// The text that bytes are shown as, whether or not they are text.
pub uninterp spec fn utf8_lossy(bytes: Seq<u8>) -> Seq<char>;

/// `String::from_utf8_lossy` shows bytes as text: the characters that they encode where they are
/// valid UTF-8, and a mark in place of what is not. What is shown depends on the bytes alone.
#[verifier::external_body]
pub(crate) fn lossy_text(bytes: &[u8]) -> (r: String)
    ensures
        r@ == utf8_lossy(bytes@),
        valid_utf8(bytes@) ==> r@ == decode_utf8(bytes@),
{
    String::from_utf8_lossy(bytes).into_owned()
}

/// A character, or the capital where it is a small ASCII letter.
pub open spec fn upper(c: char) -> char {
    if 'a' <= c <= 'z' {
        (c as u32 - 32) as char
    } else {
        c
    }
}

/// A text with its small ASCII letters made capitals.
pub open spec fn uppercase(s: Seq<char>) -> Seq<char> {
    s.map_values(|c: char| upper(c))
}

/// A character with a small ASCII letter made a capital.
pub fn upper_char(c: char) -> (r: char)
    ensures
        r == upper(c),
{
    if 'a' <= c && c <= 'z' {
        let u: u8 = c as u32 as u8;
        (u - 32) as char
    } else {
        c
    }
}

/// Makes capitals of the small ASCII letters of a text.
pub fn to_uppercase(s: &str) -> (r: String)
    ensures
        r@ == uppercase(s@),
{
    let x = chars_of(s);
    let mut out = String::new();
    let mut i: usize = 0;
    while i < x.len()
        invariant
            x@ == s@,
            i <= x.len(),
            out@ == uppercase(s@).take(i as int),
        decreases x.len() - i,
    {
        out.push(upper_char(x[i]));
        i += 1;
        assert(uppercase(s@).take(i as int) =~= uppercase(s@).take(i - 1).push(upper(s@[i - 1])));
    }
    assert(uppercase(s@).take(i as int) =~= uppercase(s@));
    out
}

/// Whether two texts are the same but for capitals among their ASCII letters.
pub fn same_ignoring_case(a: &str, b: &str) -> (r: bool)
    ensures
        r == (uppercase(a@) == uppercase(b@)),
{
    let x = to_uppercase(a);
    let y = to_uppercase(b);
    same(x.as_str(), y.as_str())
}

/// A hexadecimal digit, capitals past nine.
pub open spec fn hex_digit(d: int) -> char {
    if d < 10 {
        (48 + d) as char
    } else {
        (55 + d) as char
    }
}

/// The two hexadecimal digits of a byte.
pub open spec fn hex_byte(b: u8) -> Seq<char> {
    seq![hex_digit((b / 16) as int), hex_digit((b % 16) as int)]
}

/// Whether a text has no characters.
pub fn is_empty(s: &str) -> (r: bool)
    ensures
        r == (s@.len() == 0),
{
    let x = chars_of(s);
    x.len() == 0
}

/// Whether a text ends with another.
pub fn ends_with(s: &str, suffix: &str) -> (r: bool)
    ensures
        r == suffix@.is_suffix_of(s@),
{
    let x = chars_of(s);
    let y = chars_of(suffix);
    if y.len() > x.len() {
        return false;
    }
    assert(x@.subrange(x@.len() - y@.len(), x@.len() as int) =~= s@.subrange(
        s@.len() - suffix@.len(),
        s@.len() as int,
    ));
    matches_at(&x, &y, x.len() - y.len())
}

/// `s` without the run of `suffix` that it ends with.
pub open spec fn without_trailing(s: Seq<char>, suffix: Seq<char>) -> Seq<char>
    decreases s.len(),
{
    if suffix.len() > 0 && suffix.is_suffix_of(s) {
        without_trailing(s.take(s.len() - suffix.len()), suffix)
    } else {
        s
    }
}

/// Takes the run of a suffix off the end of a text.
pub fn trim_trailing(s: &str, suffix: &str) -> (r: String)
    ensures
        r@ == without_trailing(s@, suffix@),
{
    let x = chars_of(s);
    let y = chars_of(suffix);
    let mut to: usize = x.len();
    assert(x@.take(to as int) =~= s@);
    while y.len() > 0 && y.len() <= to && matches_at(&x, &y, to - y.len())
        invariant
            x@ == s@,
            y@ == suffix@,
            to <= x.len(),
            without_trailing(s@, suffix@) == without_trailing(x@.take(to as int), suffix@),
        decreases to,
    {
        let ghost t = x@.take(to as int);
        assert(t.subrange(t.len() - y@.len(), t.len() as int) =~= x@.subrange(to - y@.len(), to as int));
        assert(t.take(t.len() - y@.len()) =~= x@.take(to - y@.len()));
        to = to - y.len();
    }
    proof {
        let t = x@.take(to as int);
        if y@.len() > 0 && y@.len() <= to {
            assert(t.subrange(t.len() - y@.len(), t.len() as int) =~= x@.subrange(to - y@.len(), to as int));
        }
        assert(x@.subrange(0, to as int) =~= t);
    }
    text_of(&x, 0, to)
}

proof fn lemma_trimmed_start(s: Seq<char>) -> (n: int)
    ensures
        0 <= n <= s.len(),
        trimmed_start(s) == s.skip(n),
        forall|k: int| 0 <= k < n ==> white_space(#[trigger] s[k]),
        n < s.len() ==> !white_space(s[n]),
    decreases s.len(),
{
    if s.len() > 0 && white_space(s[0]) {
        let rest = s.skip(1);
        let n = lemma_trimmed_start(rest) + 1;
        assert(rest.skip(n - 1) =~= s.skip(n));
        assert forall|k: int| 0 <= k < n implies white_space(#[trigger] s[k]) by {
            if k > 0 {
                assert(rest[k - 1] == s[k]);
            }
        }
        n
    } else {
        assert(s.skip(0) =~= s);
        0
    }
}

proof fn lemma_trimmed_end(s: Seq<char>) -> (n: int)
    ensures
        0 <= n <= s.len(),
        trimmed_end(s) == s.take(n),
        forall|k: int| n <= k < s.len() ==> white_space(#[trigger] s[k]),
        n > 0 ==> !white_space(s[n - 1]),
    decreases s.len(),
{
    if s.len() > 0 && white_space(s.last()) {
        let rest = s.drop_last();
        let n = lemma_trimmed_end(rest);
        assert(rest.take(n) =~= s.take(n));
        assert forall|k: int| n <= k < s.len() implies white_space(#[trigger] s[k]) by {
            if k < s.len() - 1 {
                assert(rest[k] == s[k]);
            }
        }
        n
    } else {
        assert(s.take(s.len() as int) =~= s);
        s.len() as int
    }
}

/// What is left of a trimmed text neither begins nor ends with white space, and nothing but white
/// space was taken off it, at its two ends.
pub proof fn law_trimming_takes_off_white_space(s: Seq<char>)
    ensures
        trimmed(s).len() > 0 ==> !white_space(trimmed(s)[0]) && !white_space(trimmed(s).last()),
        exists|i: int| #[trigger]
            occurs_at(s, trimmed(s), i) && (forall|k: int|
                0 <= k < s.len() && !(i <= k < i + trimmed(s).len()) ==> white_space(
                    #[trigger] s[k],
                )),
{
    let n = lemma_trimmed_start(s);
    let t = trimmed_start(s);
    let m = lemma_trimmed_end(t);
    assert(trimmed(s) =~= s.subrange(n, n + m));
    assert(occurs_at(s, trimmed(s), n));
    assert forall|k: int|
        0 <= k < s.len() && !(n <= k < n + trimmed(s).len()) implies white_space(
        #[trigger] s[k],
    ) by {
        if k >= n {
            assert(t[k - n] == s[k]);
        }
    }
}

/// Blanks, tabs and line breaks are white space, and no character that leaves ink is.
pub proof fn law_white_space_leaves_no_ink(c: char)
    ensures
        c == ' ' || c == '\t' || c == '\n' || c == '\r' ==> white_space(c),
        0x21 <= c as u32 <= 0x7e ==> !white_space(c),
{
}

/// A text in which a pattern does not stand stays as it is when the pattern is taken out. One in
/// which it does loses its first occurrence, keeps what stands before that, and goes on behind it.
pub proof fn law_pattern_is_taken_out(before: Seq<char>, pattern: Seq<char>, rest: Seq<char>)
    requires
        pattern.len() > 0,
    ensures
        !holds(before, pattern) ==> without(before, pattern) == before,
        (forall|i: int|
            0 <= i < before.len() ==> !(#[trigger] occurs_at(before + pattern + rest, pattern, i)))
            ==> without(before + pattern + rest, pattern) == before + without(rest, pattern),
    decreases before.len(),
{
    let whole = before + pattern + rest;
    let n = pattern.len() as int;
    if before.len() == 0 {
        assert(whole.take(n) =~= pattern);
        assert(whole.skip(n) =~= rest);
        assert(before + without(rest, pattern) =~= without(rest, pattern));
    } else {
        let later = before.skip(1);
        law_pattern_is_taken_out(later, pattern, rest);
        assert(before =~= seq![before[0]] + later);
        if !holds(before, pattern) {
            if before.len() >= n {
                assert(!occurs_at(before, pattern, 0));
                assert(before.take(n) =~= before.subrange(0, n));
                assert forall|i: int| !occurs_at(later, pattern, i) by {
                    if occurs_at(later, pattern, i) {
                        assert(before.subrange(i + 1, i + 1 + n) =~= later.subrange(i, i + n));
                        assert(occurs_at(before, pattern, i + 1));
                    }
                }
                assert(!holds(later, pattern));
            }
        }
        if forall|i: int|
            0 <= i < before.len() ==> !(#[trigger] occurs_at(whole, pattern, i)) {
            let tail = later + pattern + rest;
            assert(whole.skip(1) =~= tail);
            assert forall|i: int| 0 <= i < later.len() implies !(#[trigger] occurs_at(
                tail,
                pattern,
                i,
            )) by {
                if occurs_at(tail, pattern, i) {
                    assert(whole.subrange(i + 1, i + 1 + n) =~= tail.subrange(i, i + n));
                    assert(occurs_at(whole, pattern, i + 1));
                }
            }
            assert(!occurs_at(whole, pattern, 0));
            assert(whole.take(n) =~= whole.subrange(0, n));
            assert(without(whole, pattern) =~= before + without(rest, pattern));
        }
    }
}

/// What is left of a text without a leading run of a character does not begin with that character,
/// and all that was taken off is that run.
pub proof fn law_leading_run_is_taken_off(s: Seq<char>, c: char)
    ensures
        without_leading(s, c).is_suffix_of(s),
        without_leading(s, c).len() > 0 ==> without_leading(s, c)[0] != c,
        forall|k: int| 0 <= k < s.len() - without_leading(s, c).len() ==> #[trigger] s[k] == c,
    decreases s.len(),
{
    let left = without_leading(s, c);
    if s.len() > 0 && s[0] == c {
        let rest = s.skip(1);
        law_leading_run_is_taken_off(rest, c);
        assert(left =~= s.subrange(s.len() - left.len(), s.len() as int));
        assert forall|k: int| 0 <= k < s.len() - left.len() implies #[trigger] s[k] == c by {
            if k > 0 {
                assert(rest[k - 1] == s[k]);
            }
        }
    } else {
        assert(s =~= s.subrange(0, s.len() as int));
    }
}

/// A suffix that is put at the end of a text is taken off again; what is left begins the text and
/// does not end with the suffix, and a text that does not end with it stays as it is.
pub proof fn law_trailing_run_is_taken_off(s: Seq<char>, suffix: Seq<char>)
    requires
        suffix.len() > 0,
    ensures
        without_trailing(s + suffix, suffix) == without_trailing(s, suffix),
        without_trailing(s, suffix).is_prefix_of(s),
        !suffix.is_suffix_of(without_trailing(s, suffix)),
        !suffix.is_suffix_of(s) ==> without_trailing(s, suffix) == s,
    decreases s.len(),
{
    let whole = s + suffix;
    assert(whole.subrange(whole.len() - suffix.len(), whole.len() as int) =~= suffix);
    assert(whole.take(whole.len() - suffix.len()) =~= s);
    assert(s =~= s.subrange(0, s.len() as int));
    if suffix.is_suffix_of(s) {
        let shorter = s.take(s.len() - suffix.len());
        law_trailing_run_is_taken_off(shorter, suffix);
        let left = without_trailing(s, suffix);
        assert(left =~= s.subrange(0, left.len() as int));
    }
}

/// A negative number is written with a sign in front of what reads back as its size, and any other
/// without one.
pub proof fn law_sign_is_written(n: int)
    ensures
        n < 0 ==> signed_decimal(n)[0] == '-' && digits_value(signed_decimal(n).skip(1)) == Some(
            (-n) as nat,
        ),
        n >= 0 ==> digits_value(signed_decimal(n)) == Some(n as nat),
{
    if n < 0 {
        law_decimal_reads_back((-n) as nat);
        assert(signed_decimal(n).skip(1) =~= decimal((-n) as nat));
    } else {
        law_decimal_reads_back(n as nat);
    }
}

/// A text in capitals is as long as the text, has no small letter between a and z, and keeps every
/// character that is none. A text that is in capitals already stays as it is.
pub proof fn law_capitals(s: Seq<char>)
    ensures
        uppercase(s).len() == s.len(),
        forall|i: int| 0 <= i < s.len() ==> !('a' <= #[trigger] uppercase(s)[i] <= 'z'),
        forall|i: int|
            0 <= i < s.len() && !('a' <= s[i] <= 'z') ==> #[trigger] uppercase(s)[i] == s[i],
        forall|i: int|
            0 <= i < s.len() && 'a' <= s[i] <= 'z' ==> (#[trigger] uppercase(s)[i]) as int - 'A'
                as int == s[i] as int - 'a' as int,
        uppercase(uppercase(s)) == uppercase(s),
{
    assert(uppercase(uppercase(s)) =~= uppercase(s));
}

} // verus!
