//! The six-octet hardware address: its text form, its stored form, and how
//! a fresh one is drawn.

use vstd::prelude::*;
use vstd::string::*;
use crate::entropy::random_octets;
use crate::hex::{
    hex_digit, hex_digit_text, hex_value, is_octet_text, lemma_octet_text_round_trip,
    lemma_octet_value_round_trip, lower, octet_text, octet_value,
};
use crate::scan::{first_index, lemma_first_index};
use crate::text::chars_of;

verus! {

/// The octet that a stored byte stands for.
pub open spec fn unsigned(b: i8) -> u8 {
    if b < 0 {
        (b + 256) as u8
    } else {
        b as u8
    }
}

/// The stored byte that stands for an octet.
pub open spec fn signed(o: u8) -> i8 {
    if o >= 128 {
        (o - 256) as i8
    } else {
        o as i8
    }
}

/// Reads a stored byte as an octet.
pub fn to_unsigned(b: i8) -> (o: u8)
    ensures
        o == unsigned(b),
{
    assert(b as u8 == unsigned(b)) by (bit_vector);
    b as u8
}

/// Stores an octet as a byte.
pub fn to_signed(o: u8) -> (b: i8)
    ensures
        b == signed(o),
{
    assert(o as i8 == signed(o)) by (bit_vector);
    o as i8
}

/// The fourteen stored bytes of six octets: the octets, then eight zero bytes.
pub open spec fn stored(octets: Seq<u8>) -> Seq<i8> {
    Seq::new(
        14,
        |i: int|
            if i < 6 {
                signed(octets[i])
            } else {
                0i8
            },
    )
}

/// The number of colons in a text.
pub open spec fn colon_count(s: Seq<char>) -> nat
    decreases s.len(),
{
    if s.len() == 0 {
        0
    } else if s[0] == ':' {
        1 + colon_count(s.drop_first())
    } else {
        colon_count(s.drop_first())
    }
}

/// The position of the first colon in a text, or the length of the text if
/// it holds none.
pub open spec fn first_colon(s: Seq<char>) -> int {
    first_index(s, ':')
}

/// The fields of a text: the pieces between its colons, in order. A text
/// with `n` colons has `n + 1` fields, some of them possibly empty.
pub open spec fn fields(s: Seq<char>) -> Seq<Seq<char>>
    decreases s.len(),
{
    let at = first_colon(s);
    if 0 <= at < s.len() {
        seq![s.take(at)] + fields(s.skip(at + 1))
    } else {
        seq![s]
    }
}

/// Whether field `i` is the first one that is not two hexadecimal digits.
pub open spec fn is_first_bad(f: Seq<Seq<char>>, i: int) -> bool {
    &&& 0 <= i < f.len()
    &&& !is_octet_text(f[i])
    &&& forall|j: int| 0 <= j < i ==> is_octet_text(#[trigger] f[j])
}

/// What parsing a text gives: the six octets, or the reason for refusing it.
///
/// A text is refused for its shape unless it holds exactly five colons; then
/// for its first field that is not two hexadecimal digits; then for a first
/// octet whose lowest bit is set.
pub open spec fn parse_spec(s: Seq<char>) -> Result<Seq<u8>, InvalidView> {
    let f = fields(s);
    if colon_count(s) != 5 {
        Err(InvalidView::MismatchAddrSize(s))
    } else if exists|i: int| is_first_bad(f, i) {
        let i = choose|i: int| is_first_bad(f, i);
        Err(InvalidView::WrongHexValue(i as usize, f[i], s))
    } else {
        let octets = Seq::new(6, |i: int| octet_value(f[i]));
        if octets[0] % 2 != 0 {
            Err(InvalidView::MultiCastBitSet(0, signed(octets[0]), stored(octets), s))
        } else {
            Ok(octets)
        }
    }
}

/// Whether `r` is what parsing a text gives: the address of the six octets
/// with eight zero bytes behind them, or the error with its texts.
pub open spec fn is_parse_of(r: Result<Mac, Invalid>, text: Seq<char>) -> bool {
    match r {
        Ok(mac) => parse_spec(text) == Ok::<Seq<u8>, InvalidView>(mac@) && mac.padding_clear(),
        Err(invalid) => parse_spec(text) == Err::<Seq<u8>, InvalidView>(invalid@),
    }
}

/// The text of six octets: two lowercase digits each, with colons between.
pub open spec fn format_spec(octets: Seq<u8>) -> Seq<char>
    recommends
        octets.len() == 6,
{
    Seq::new(
        17,
        |i: int|
            if i % 3 == 2 {
                ':'
            } else {
                octet_text(octets[i / 3])[i % 3]
            },
    )
}

/// Whether a text has the form `xx:xx:xx:xx:xx:xx` with a hexadecimal digit
/// of either case for each `x`.
pub open spec fn is_address_text(s: Seq<char>) -> bool {
    &&& s.len() == 17
    &&& forall|i: int|
        0 <= i < 17 ==> if i % 3 == 2 {
            #[trigger] s[i] == ':'
        } else {
            hex_value(s[i]) is Some
        }
}

/// Whether a text holds five colons and each of its six fields is two
/// hexadecimal digits.
pub open spec fn has_octet_fields(s: Seq<char>) -> bool {
    &&& colon_count(s) == 5
    &&& forall|i: int| 0 <= i < 6 ==> is_octet_text(#[trigger] fields(s)[i])
}

/// Whether a text of one or more fields holds two characters in each field
/// and nothing else but the colons between them.
pub open spec fn is_paired(s: Seq<char>, n: nat) -> bool {
    &&& n >= 1
    &&& s.len() == 3 * n - 1
    &&& forall|i: int| 0 <= i < s.len() ==> ((#[trigger] s[i] == ':') <==> i % 3 == 2)
}

/// An octet with its lowest bit cleared.
pub open spec fn without_group_bit(o: u8) -> u8 {
    (o - o % 2) as u8
}

/// A hardware address, held as the kernel holds it: six octets followed by
/// eight bytes that carry no meaning.
#[derive(Debug, Clone, Copy)]
pub struct Mac(pub [i8; 14]);

/// Why a text was refused as an address.
#[derive(Debug)]
pub enum Invalid {
    /// The text does not hold exactly five colons. Holds the text.
    MismatchAddrSize(String),
    /// A field is not two hexadecimal digits. Holds the field's index, the
    /// field, and the text.
    WrongHexValue(usize, String, String),
    /// The lowest bit of an octet that must be even is set. Holds the
    /// octet's index, its stored byte, all stored bytes, and the text.
    MultiCastBitSet(usize, i8, [i8; 14], String),
}

/// An `Invalid` with its texts as sequences of characters.
pub enum InvalidView {
    MismatchAddrSize(Seq<char>),
    WrongHexValue(usize, Seq<char>, Seq<char>),
    MultiCastBitSet(usize, i8, Seq<i8>, Seq<char>),
}

impl View for Invalid {
    type V = InvalidView;

    open spec fn view(&self) -> InvalidView {
        match self {
            Invalid::MismatchAddrSize(text) => InvalidView::MismatchAddrSize(text@),
            Invalid::WrongHexValue(index, field, text) => InvalidView::WrongHexValue(
                *index,
                field@,
                text@,
            ),
            Invalid::MultiCastBitSet(index, byte, bytes, text) => InvalidView::MultiCastBitSet(
                *index,
                *byte,
                bytes@,
                text@,
            ),
        }
    }
}

impl View for Mac {
    type V = Seq<u8>;

    /// The six significant octets.
    open spec fn view(&self) -> Seq<u8> {
        Seq::new(6, |i: int| unsigned(self.0[i]))
    }
}

impl Default for Mac {
    /// The address of six zero octets.
    fn default() -> (m: Mac)
        ensures
            m.0@ == stored(Seq::new(6, |i: int| 0u8)),
    {
        let m = Mac([0i8; 14]);
        assert(m.0@ =~= stored(Seq::new(6, |i: int| 0u8)));
        m
    }
}

/// The number of colons among some characters.
fn count_colons(chars: &Vec<char>) -> (n: usize)
    ensures
        n == colon_count(chars@),
{
    let mut n: usize = 0;
    let mut i: usize = 0;
    assert(chars@.skip(0) =~= chars@);
    while i < chars.len()
        invariant
            i <= chars.len(),
            n <= i,
            n + colon_count(chars@.skip(i as int)) == colon_count(chars@),
        decreases chars.len() - i,
    {
        assert(chars@.skip(i as int).drop_first() =~= chars@.skip(i + 1));
        if chars[i] == ':' {
            n += 1;
        }
        i += 1;
    }
    n
}

/// Clears the lowest bit of a stored byte and leaves its other bits as they
/// are: a byte whose lowest bit is set goes down by one, which no byte with
/// that bit set is too small for.
pub fn clear_multicast_bit(b: i8) -> (r: i8)
    ensures
        unsigned(r) == without_group_bit(unsigned(b)),
        r == b - unsigned(b) % 2,
{
    if to_unsigned(b) % 2 != 0 {
        b - 1
    } else {
        b
    }
}

impl Mac {
    /// Whether the lowest bit of the first octet is clear.
    pub open spec fn is_unicast(&self) -> bool {
        self@[0] % 2 == 0
    }

    /// Whether the eight bytes after the octets are zero.
    pub open spec fn padding_clear(&self) -> bool {
        forall|i: int| 6 <= i < 14 ==> self.0[i] == 0
    }

    /// The fourteen stored bytes.
    pub fn bytes(&self) -> (b: [i8; 14])
        ensures
            b == self.0,
    {
        self.0
    }

    /// Takes fourteen bytes that the kernel returned as an address, as they are.
    pub fn from_raw_bytes(bytes: [i8; 14]) -> (m: Mac)
        ensures
            m.0 == bytes,
    {
        Mac(bytes)
    }

    /// The unicast address nearest to six given octets: the same octets, but
    /// for the lowest bit of the first, which is cleared.
    pub fn unicast_from(octets: [i8; 6]) -> (m: Mac)
        ensures
            m@ == Seq::new(6, |i: int| unsigned(octets[i])).update(
                0,
                without_group_bit(unsigned(octets[0])),
            ),
            m.is_unicast(),
            m.padding_clear(),
    {
        let mut bytes = [0i8; 14];
        let mut i: usize = 0;
        while i < 6
            invariant
                i <= 6,
                forall|j: int| 0 <= j < i ==> bytes[j] == octets[j],
                forall|j: int| 6 <= j < 14 ==> bytes[j] == 0,
            decreases 6 - i,
        {
            bytes[i] = octets[i];
            i += 1;
        }
        bytes[0] = clear_multicast_bit(bytes[0]);
        let m = Mac(bytes);
        assert(m@ =~= Seq::new(6, |i: int| unsigned(octets[i])).update(
            0,
            without_group_bit(unsigned(octets[0])),
        ));
        m
    }

    /// A freshly drawn unicast address.
    pub fn rand() -> (m: Mac)
        ensures
            m.is_unicast(),
            m.padding_clear(),
    {
        Mac::unicast_from(random_octets())
    }

    /// The address as text: `xx:xx:xx:xx:xx:xx` in lowercase digits.
    pub fn format(&self) -> (text: String)
        ensures
            text@ == format_spec(self@),
    {
        let mut text = String::new();
        let mut i: usize = 0;
        while i < 6
            invariant
                i <= 6,
                text@ == format_spec(self@).take(
                    if i == 6 {
                        17
                    } else {
                        3 * i
                    },
                ),
            decreases 6 - i,
        {
            let octet = to_unsigned(self.0[i]);
            text.append(hex_digit_text(octet / 16));
            text.append(hex_digit_text(octet % 16));
            if i + 1 < 6 {
                text.append(":");
                proof {
                    reveal_strlit(":");
                }
                assert(text@ =~= format_spec(self@).take(3 * (i + 1)));
            } else {
                assert(text@ =~= format_spec(self@).take(17));
            }
            i += 1;
        }
        assert(format_spec(self@).take(17) =~= format_spec(self@));
        text
    }

    /// Reads an address from its text.
    ///
    /// The text must hold exactly five colons, each of its six fields must
    /// be two hexadecimal digits of either case, and the first octet must be
    /// even. The first of these that fails, in this order, names the error.
    pub fn parse(text: &str) -> (r: Result<Mac, Invalid>)
        ensures
            is_parse_of(r, text@),
            r is Ok <==> has_octet_fields(text@) && octet_value(fields(text@)[0]) % 2 == 0,
            r is Ok ==> r->Ok_0.is_unicast(),
            colon_count(text@) != 5 ==> (r matches Err(Invalid::MismatchAddrSize(t)) && t@
                == text@),
            forall|i: int|
                colon_count(text@) == 5 && is_first_bad(fields(text@), i) ==> (r matches Err(
                    Invalid::WrongHexValue(index, field, t),
                ) && index == i && field@ == fields(text@)[i] && t@ == text@),
            has_octet_fields(text@) && octet_value(fields(text@)[0]) % 2 != 0 ==> (r matches Err(
                Invalid::MultiCastBitSet(index, byte, bytes, t),
            ) && index == 0 && unsigned(byte) == octet_value(fields(text@)[0]) && t@ == text@),
    {
        let chars = chars_of(text);
        let ghost s = text@;
        if count_colons(&chars) != 5 {
            return Err(Invalid::MismatchAddrSize(text.to_owned()));
        }
        proof {
            lemma_field_count(s);
            assert(s.skip(0) =~= s);
            assert(fields(s).skip(0) =~= fields(s));
        }
        let mut bytes = [0i8; 14];
        let mut start: usize = 0;
        let mut k: usize = 0;
        while k < 6
            invariant
                chars@ == s,
                s == text@,
                colon_count(s) == 5,
                fields(s).len() == 6,
                k <= 6,
                start <= chars.len(),
                k < 6 ==> fields(s).skip(k as int) == fields(s.skip(start as int)),
                forall|j: int|
                    0 <= j < k ==> is_octet_text(#[trigger] fields(s)[j]) && unsigned(bytes[j])
                        == octet_value(fields(s)[j]),
                forall|j: int| 6 <= j < 14 ==> bytes[j] == 0,
            decreases 6 - k,
        {
            let mut end: usize = start;
            while end < chars.len() && chars[end] != ':'
                invariant
                    start <= end <= chars.len(),
                    forall|j: int| start <= j < end ==> chars@[j] != ':',
                decreases chars.len() - end,
            {
                end += 1;
            }
            let ghost rest = s.skip(start as int);
            proof {
                lemma_first_index(rest, ':', end - start);
                assert(rest.take(end - start) =~= s.subrange(start as int, end as int));
                assert(fields(s)[k as int] == fields(s).skip(k as int)[0]);
                if end < chars.len() {
                    assert(rest.skip(end - start + 1) =~= s.skip(end + 1));
                    assert(fields(s).skip(k + 1) =~= fields(s).skip(k as int).drop_first());
                    assert(fields(rest).drop_first() =~= fields(s.skip(end + 1)));
                }
                assert(fields(s)[k as int] == s.subrange(start as int, end as int));
            }
            let mut value: Option<u8> = None;
            if end - start == 2 {
                match (hex_digit(chars[start]), hex_digit(chars[start + 1])) {
                    (Some(high), Some(low)) => {
                        value = Some(high * 16 + low);
                    },
                    _ => {},
                }
            }
            match value {
                None => {
                    assert(is_first_bad(fields(s), k as int));
                    proof {
                        lemma_bad_field_refused(s, k as int);
                    }
                    return Err(
                        Invalid::WrongHexValue(
                            k,
                            text.substring_char(start, end).to_owned(),
                            text.to_owned(),
                        ),
                    );
                },
                Some(octet) => {
                    bytes[k] = to_signed(octet);
                },
            }
            k += 1;
            if end < chars.len() {
                start = end + 1;
            }
        }
        let m = Mac(bytes);
        assert(m@ =~= Seq::new(6, |i: int| octet_value(fields(s)[i])));
        assert(has_octet_fields(s));
        if to_unsigned(bytes[0]) % 2 != 0 {
            assert(bytes@ =~= stored(m@));
            Err(Invalid::MultiCastBitSet(0, bytes[0], bytes, text.to_owned()))
        } else {
            Ok(m)
        }
    }
}

/// A text's first colon stands inside the text or at its end, with no colon before it.
pub proof fn lemma_first_colon_bounds(s: Seq<char>)
    ensures
        0 <= first_colon(s) <= s.len(),
        first_colon(s) < s.len() ==> s[first_colon(s)] == ':',
        colon_count(s.take(first_colon(s))) == 0,
        first_colon(s) < s.len() ==> colon_count(s) == 1 + colon_count(s.skip(first_colon(s) + 1)),
        first_colon(s) == s.len() ==> colon_count(s) == 0,
    decreases s.len(),
{
    if s.len() == 0 || s[0] == ':' {
        assert(s.take(0) =~= Seq::<char>::empty());
        if s.len() > 0 {
            assert(s.skip(1) =~= s.drop_first());
        }
    } else {
        let t = s.drop_first();
        lemma_first_colon_bounds(t);
        let at = first_colon(t);
        assert(s.take(at + 1).drop_first() =~= t.take(at));
        if at < t.len() {
            assert(s.skip(at + 2) =~= t.skip(at + 1));
        }
    }
}

/// A text has one field more than it has colons.
pub proof fn lemma_field_count(s: Seq<char>)
    ensures
        fields(s).len() == colon_count(s) + 1,
    decreases s.len(),
{
    lemma_first_colon_bounds(s);
    let at = first_colon(s);
    if at < s.len() {
        lemma_field_count(s.skip(at + 1));
    }
}

/// The fields of a text of two-character fields are its pairs, in order.
pub proof fn lemma_fields_of_pairs(s: Seq<char>, n: nat)
    requires
        is_paired(s, n),
    ensures
        colon_count(s) == n - 1,
        fields(s).len() == n,
        forall|k: int| 0 <= k < n ==> #[trigger] fields(s)[k] == s.subrange(3 * k, 3 * k + 2),
    decreases n,
{
    lemma_first_index(s, ':', 2);
    lemma_first_colon_bounds(s);
    if n > 1 {
        let t = s.skip(3);
        assert(is_paired(t, (n - 1) as nat)) by {
            assert forall|i: int| 0 <= i < t.len() implies ((#[trigger] t[i] == ':') <==> i % 3
                == 2) by {
                assert(t[i] == s[i + 3]);
            }
        }
        lemma_fields_of_pairs(t, (n - 1) as nat);
        assert forall|k: int| 0 <= k < n implies #[trigger] fields(s)[k] == s.subrange(
            3 * k,
            3 * k + 2,
        ) by {
            if k == 0 {
                assert(s.take(2) =~= s.subrange(0, 2));
            } else {
                assert(fields(s)[k] == fields(t)[k - 1]);
                assert(t.subrange(3 * (k - 1), 3 * (k - 1) + 2) =~= s.subrange(3 * k, 3 * k + 2));
            }
        }
    } else {
        assert(s.subrange(0, 2) =~= s);
    }
}

/// A text of the form `xx:xx:xx:xx:xx:xx` with an even first octet is
/// accepted, and the text of the address it gives is the same text in
/// lowercase.
pub proof fn lemma_parse_then_format(s: Seq<char>)
    requires
        is_address_text(s),
        octet_value(s.subrange(0, 2)) % 2 == 0,
    ensures
        parse_spec(s) is Ok,
        format_spec(parse_spec(s)->Ok_0) == s.map_values(|c: char| lower(c)),
{
    assert(is_paired(s, 6));
    lemma_fields_of_pairs(s, 6);
    let f = fields(s);
    assert forall|k: int| 0 <= k < 6 implies is_octet_text(#[trigger] f[k]) by {
        assert(f[k] == s.subrange(3 * k, 3 * k + 2));
        assert(f[k][0] == s[3 * k]);
        assert(f[k][1] == s[3 * k + 1]);
    }
    let octets = Seq::new(6, |i: int| octet_value(f[i]));
    assert(parse_spec(s) == Ok::<Seq<u8>, InvalidView>(octets));
    let low = s.map_values(|c: char| lower(c));
    assert forall|j: int| 0 <= j < 17 implies format_spec(octets)[j] == low[j] by {
        if j % 3 != 2 {
            let k = j / 3;
            lemma_octet_value_round_trip(f[k]);
            assert(f[k] == s.subrange(3 * k, 3 * k + 2));
            assert(f[k].map_values(|c: char| lower(c))[j % 3] == lower(s[j]));
        } else {
            assert(s[j] == ':');
        }
    }
    assert(format_spec(octets) =~= low);
}

/// The text of an address with an even first octet is accepted and gives
/// the same six octets back.
pub proof fn lemma_format_then_parse(octets: Seq<u8>)
    requires
        octets.len() == 6,
        octets[0] % 2 == 0,
    ensures
        is_address_text(format_spec(octets)),
        parse_spec(format_spec(octets)) == Ok::<Seq<u8>, InvalidView>(octets),
{
    let s = format_spec(octets);
    assert forall|i: int| 0 <= i < 17 implies if i % 3 == 2 {
        #[trigger] s[i] == ':'
    } else {
        hex_value(s[i]) is Some
    } by {
        if i % 3 != 2 {
            lemma_octet_text_round_trip(octets[i / 3]);
        }
    }
    assert(is_paired(s, 6));
    lemma_fields_of_pairs(s, 6);
    let f = fields(s);
    assert forall|k: int| 0 <= k < 6 implies is_octet_text(#[trigger] f[k]) && octet_value(f[k])
        == octets[k] by {
        assert(f[k] == s.subrange(3 * k, 3 * k + 2));
        assert(f[k] =~= octet_text(octets[k]));
        lemma_octet_text_round_trip(octets[k]);
    }
    assert(Seq::new(6, |i: int| octet_value(f[i])) =~= octets);
}

/// A text that does not hold exactly five colons is refused for its shape,
/// whatever else it holds.
pub proof fn lemma_wrong_colon_count(s: Seq<char>)
    requires
        colon_count(s) != 5,
    ensures
        parse_spec(s) == Err::<Seq<u8>, InvalidView>(InvalidView::MismatchAddrSize(s)),
{
}

/// A text of five colons is refused for the first of its fields that is not
/// two hexadecimal digits, which the error names by index and text.
pub proof fn lemma_bad_field_refused(s: Seq<char>, i: int)
    requires
        colon_count(s) == 5,
        is_first_bad(fields(s), i),
    ensures
        0 <= i < 6,
        parse_spec(s) == Err::<Seq<u8>, InvalidView>(
            InvalidView::WrongHexValue(i as usize, fields(s)[i], s),
        ),
{
    lemma_field_count(s);
    let c = choose|c: int| is_first_bad(fields(s), c);
    assert(c == i);
}

/// A text of six two-digit fields whose first octet is odd is refused for
/// the lowest bit of octet 0.
pub proof fn lemma_multicast_refused(s: Seq<char>)
    requires
        has_octet_fields(s),
        octet_value(fields(s)[0]) % 2 != 0,
    ensures
        parse_spec(s) matches Err(InvalidView::MultiCastBitSet(index, byte, bytes, text))
            && index == 0 && unsigned(byte) == octet_value(fields(s)[0]) && text == s,
{
    lemma_field_count(s);
}

impl<'a> TryFrom<&'a str> for Mac {
    type Error = Invalid;

    /// Reads an address from its text, as `Mac::parse` does.
    fn try_from(value: &'a str) -> (r: Result<Mac, Invalid>)
        ensures
            is_parse_of(r, value@),
    {
        Mac::parse(value)
    }
}

impl<'a> vstd::std_specs::convert::TryFromSpecImpl<&'a str> for Mac {
    /// The conversion is specified by the contract of `try_from` itself: an
    /// error holds owned texts, which no specification function can build.
    open spec fn obeys_try_from_spec() -> bool {
        false
    }

    open spec fn try_from_spec(v: &'a str) -> Result<Mac, Invalid> {
        arbitrary()
    }
}

} // verus!
