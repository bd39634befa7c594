//! Codec for the router's per-port state.
//!
//! A SysEx data byte carries seven bits. The router therefore sends every
//! eight-bit value as two data bytes, the top bit first, and a port's state
//! as a block of 32 data bytes: the forwarding mask in the first four, the
//! eight characters of the name at the odd offsets from 17 on.
use vstd::prelude::*;
use vstd::string::StrSliceExecFns;
use vstd::string::StringExecFns;
use vstd::utf8::decode_utf8;
use vstd::utf8::encode_utf8;
use vstd::utf8::encode_utf8_decode_utf8;
use vstd::utf8::encode_utf8_valid_utf8;
use vstd::utf8::is_ascii_chars;
use vstd::utf8::is_ascii_chars_encode_utf8;
use vstd::utf8::pop_first_scalar;
use vstd::utf8::valid_utf8;
use crate::text::push_two_digits;
use crate::text::two_digit_text;

verus! {

/// Length of the block that holds one port's state.
pub const BLOCK_LEN: usize = 32;

/// Number of characters in a port name on the wire.
pub const NAME_LEN: usize = 8;

/// The byte that the pair `(msb, lsb)` stands for: bit 0 of `msb` becomes
/// bit 7, and `lsb` is added modulo 256.
///
/// For a pair as the router sends it (`msb <= 1`, `lsb <= 127`) this is
/// `msb * 128 + lsb`, with nothing lost.
pub open spec fn midi8_spec(msb: u8, lsb: u8) -> u8 {
    (((msb as int % 2) * 128 + lsb as int) % 256) as u8
}

/// Joins two seven-bit data bytes into one eight-bit value.
///
/// Bytes outside the ranges that the router uses are accepted: the higher
/// bits of `msb` fall away and the sum wraps.
pub fn midi8(msb: u8, lsb: u8) -> (value: u8)
    ensures
        value == midi8_spec(msb, lsb),
        msb <= 1 && lsb <= 127 ==> value == msb * 128 + lsb,
{
    let high: u8 = msb << 7;
    assert(high == (msb % 2) * 128) by (bit_vector)
        requires
            high == msb << 7,
    ;
    high.wrapping_add(lsb)
}

/// The forwarding mask in a port block: the first pair of data bytes is its
/// high byte, the second pair its low byte.
pub open spec fn port_mask(data: Seq<u8>) -> u16
    recommends
        data.len() >= 4,
{
    (midi8_spec(data[0], data[1]) as int * 256 + midi8_spec(data[2], data[3]) as int) as u16
}

/// The eight name bytes of a port block, taken from offsets 17, 19, .., 31.
pub open spec fn name_bytes(data: Seq<u8>) -> Seq<u8>
    recommends
        data.len() >= 32,
{
    Seq::new(8, |i: int| data[17 + 2 * i])
}

/// `text` without the NUL characters at its end.
pub open spec fn strip_trailing_nul(text: Seq<char>) -> Seq<char>
    decreases text.len(),
{
    if text.len() > 0 && text.last() == '\0' {
        strip_trailing_nul(text.drop_last())
    } else {
        text
    }
}

/// The name in a port block: the name bytes read as UTF-8, without the NUL
/// padding at the end; empty where the bytes are not UTF-8.
pub open spec fn port_name(data: Seq<u8>) -> Seq<char>
    recommends
        data.len() >= 32,
{
    if valid_utf8(name_bytes(data)) {
        strip_trailing_nul(decode_utf8(name_bytes(data)))
    } else {
        Seq::empty()
    }
}

/// What a `Port` holds.
pub struct PortView {
    /// Bit `i` is set where the port forwards to port `i + 1`.
    pub forwards: u16,
    /// The port's name, of up to eight characters.
    pub name: Seq<char>,
}

/// Whether `name` can be the name of a port: it has at most eight
/// characters and does not end in NUL.
pub open spec fn well_named(name: Seq<char>) -> bool {
    name.len() <= 8 && (name.len() > 0 ==> name.last() != '\0')
}

/// The state of one port, decoded from a reply.
pub struct Port {
    forwards: u16,
    name: String,
}

impl View for Port {
    type V = PortView;

    closed spec fn view(&self) -> PortView {
        PortView { forwards: self.forwards, name: self.name@ }
    }
}

impl Port {
    #[verifier::type_invariant]
    spec fn named_well(self) -> bool {
        well_named(self.name@)
    }
}

/// The state that a port block encodes.
pub open spec fn decoded(data: Seq<u8>) -> PortView
    recommends
        data.len() == 32,
{
    PortView { forwards: port_mask(data), name: port_name(data) }
}

/// `String::from_utf8`: the bytes are accepted exactly when they are
/// well-formed UTF-8, and the string is then made of these very bytes.
#[verifier::external_body]
fn string_from_utf8(bytes: Vec<u8>) -> (text: Option<String>)
    ensures
        text is Some <==> valid_utf8(bytes@),
        text matches Some(s) ==> encode_utf8(s@) == bytes@,
{
    String::from_utf8(bytes).ok()
}

/// Removing NULs from the end can be done one character at a time.
proof fn lemma_strip_prefix(text: Seq<char>, end: int)
    requires
        0 <= end <= text.len(),
        forall|i: int| end <= i < text.len() ==> text[i] == '\0',
    ensures
        strip_trailing_nul(text) == strip_trailing_nul(text.subrange(0, end)),
    decreases text.len() - end,
{
    if end < text.len() {
        assert(text.drop_last().subrange(0, end) =~= text.subrange(0, end));
        lemma_strip_prefix(text.drop_last(), end);
    } else {
        assert(text.subrange(0, end) =~= text);
    }
}

/// What is left after stripping is no longer than the text and does not end
/// in NUL.
proof fn lemma_stripped(text: Seq<char>)
    ensures
        strip_trailing_nul(text).len() <= text.len(),
        strip_trailing_nul(text).len() > 0 ==> strip_trailing_nul(text).last() != '\0',
    decreases text.len(),
{
    if text.len() > 0 && text.last() == '\0' {
        lemma_stripped(text.drop_last());
    }
}

/// Well-formed UTF-8 encodes no more characters than it has bytes.
proof fn lemma_decoded_len(bytes: Seq<u8>)
    requires
        valid_utf8(bytes),
    ensures
        decode_utf8(bytes).len() <= bytes.len(),
    decreases bytes.len(),
{
    if bytes.len() > 0 {
        lemma_decoded_len(pop_first_scalar(bytes));
    }
}

/// The name in a port block has at most eight characters and does not end
/// in NUL.
pub proof fn lemma_port_name_is_well_named(data: Seq<u8>)
    ensures
        well_named(port_name(data)),
{
    let raw = name_bytes(data);
    if valid_utf8(raw) {
        lemma_decoded_len(raw);
        lemma_stripped(decode_utf8(raw));
    }
}

/// Decodes the 32-byte block of one port.
///
/// Every block decodes: bytes that make no sense as a mask or a name give a
/// mask or a name that makes none, and name bytes that are not UTF-8 give the
/// empty name.
pub fn decode_port(data: &[u8]) -> (port: Port)
    requires
        data@.len() == BLOCK_LEN,
    ensures
        port@ == decoded(data@),
        well_named(port@.name),
{
    let m1 = midi8(data[0], data[1]);
    let m2 = midi8(data[2], data[3]);
    let high: u16 = (m1 as u16) << 8;
    assert(high == m1 * 256) by (bit_vector)
        requires
            high == (m1 as u16) << 8,
    ;
    let mask: u16 = high + (m2 as u16);

    let raw = vec![data[17], data[19], data[21], data[23], data[25], data[27], data[29], data[31]];
    assert(raw@ =~= name_bytes(data@));
    let text = match string_from_utf8(raw) {
        Some(text) => {
            proof {
                encode_utf8_decode_utf8(text@);
            }
            text
        },
        None => String::new(),
    };
    let full = text.as_str();
    let mut end = full.unicode_len();
    while end > 0 && full.get_char(end - 1) == '\0'
        invariant
            end <= full@.len(),
            forall|i: int| end <= i < full@.len() ==> full@[i] == '\0',
        decreases end,
    {
        end -= 1;
    }
    proof {
        lemma_strip_prefix(full@, end as int);
    }
    let name = String::from_str(full.substring_char(0, end));
    proof {
        lemma_port_name_is_well_named(data@);
    }
    Port { forwards: mask, name }
}

impl Port {
    /// The forwarding mask: bit `i` is set where the port forwards to port
    /// `i + 1`.
    pub fn forwards(&self) -> (mask: u16)
        ensures
            mask == self@.forwards,
    {
        self.forwards
    }

    /// The port's name: at most eight characters, the last of them no NUL.
    pub fn name(&self) -> (name: &str)
        ensures
            name@ == self@.name,
            well_named(name@),
    {
        proof {
            use_type_invariant(self);
        }
        self.name.as_str()
    }
}

/// Whether bit `i` of a forwarding mask is set, that is, whether the port
/// forwards to port `i + 1`.
pub open spec fn forward_bit(mask: u16, i: u16) -> bool {
    mask & (1u16 << i) != 0
}

/// A name filled with spaces on the right to eight characters; a longer one
/// is left as it is.
pub open spec fn padded_name(name: Seq<char>) -> Seq<char> {
    if name.len() < 8 {
        name + Seq::new((8 - name.len()) as nat, |i: int| ' ')
    } else {
        name
    }
}

/// The three characters that stand for bit `i` in a port's line: the number
/// of the port forwarded to and a space, or three spaces.
pub open spec fn forward_cell(mask: u16, i: u16) -> Seq<char> {
    if forward_bit(mask, i) {
        two_digit_text((i + 1) as nat).push(' ')
    } else {
        seq![' ', ' ', ' ']
    }
}

/// The cells of the bits `0 .. n`, in that order.
pub open spec fn forward_cells(mask: u16, n: u16) -> Seq<char>
    decreases n,
{
    if n == 0 {
        Seq::empty()
    } else {
        forward_cells(mask, (n - 1) as u16) + forward_cell(mask, (n - 1) as u16)
    }
}

/// The text `"Port "`.
pub open spec fn port_label() -> Seq<char> {
    seq!['P', 'o', 'r', 't', ' ']
}

/// The text `" Forward: "`.
pub open spec fn forward_label() -> Seq<char> {
    seq![' ', 'F', 'o', 'r', 'w', 'a', 'r', 'd', ':', ' ']
}

/// The line that shows the port with index `index` (counted from 0):
/// `Port NN: `, the padded name, ` Forward: ` and the sixteen cells.
pub open spec fn port_line(port: PortView, index: u8) -> Seq<char> {
    port_label() + two_digit_text((index + 1) as nat) + seq![':', ' '] + padded_name(port.name)
        + forward_label() + forward_cells(port.forwards, 16)
}

/// Renders one port as a line of text, without a newline.
///
/// `index` counts from 0; the line shows `index + 1`, in two digits.
pub fn format_port(port: &Port, index: u8) -> (line: String)
    ensures
        line@ == port_line(port@, index),
{
    proof {
        reveal_strlit("Port ");
        reveal_strlit(": ");
        reveal_strlit(" Forward: ");
    }
    let mut line = String::new();
    line.append("Port ");
    push_two_digits(&mut line, index as u64 + 1);
    line.append(": ");
    line.append(port.name.as_str());
    let ghost head = port_label() + two_digit_text((index + 1) as nat) + seq![':', ' '];
    let len = port.name.as_str().unicode_len();
    let mut width = len;
    while width < NAME_LEN
        invariant
            len == port@.name.len(),
            len <= width,
            len < NAME_LEN ==> width <= NAME_LEN,
            len >= NAME_LEN ==> width == len,
            line@ == head + port@.name + Seq::new((width - len) as nat, |i: int| ' '),
        decreases NAME_LEN - width,
    {
        proof {
            reveal_strlit(" ");
        }
        line.append(" ");
        width += 1;
    }
    line.append(" Forward: ");
    let ghost base = head + padded_name(port@.name) + forward_label();
    let mask = port.forwards;
    let mut i: u16 = 0;
    while i < 16
        invariant
            i <= 16,
            mask == port@.forwards,
            line@ == base + forward_cells(mask, i),
        decreases 16 - i,
    {
        proof {
            reveal_strlit(" ");
            reveal_strlit("   ");
        }
        if mask & (1u16 << i) != 0 {
            push_two_digits(&mut line, i as u64 + 1);
            line.append(" ");
        } else {
            line.append("   ");
        }
        i += 1;
    }
    line
}

/// Joining undoes the router's splitting: a byte sent as its top bit and
/// its lower seven bits comes back unchanged.
pub proof fn lemma_midi8_joins_split(value: u8)
    ensures
        midi8_spec(value / 128, value % 128) == value,
{
}

/// A pair as the router sends it is joined without loss: the value is
/// `(msb << 7) + lsb`, and splitting it gives the pair back.
pub proof fn lemma_midi8_valid_pair(msb: u8, lsb: u8)
    requires
        msb <= 1,
        lsb <= 127,
    ensures
        midi8_spec(msb, lsb) == (msb << 7) + lsb,
        midi8_spec(msb, lsb) == msb * 128 + lsb,
        midi8_spec(msb, lsb) / 128 == msb,
        midi8_spec(msb, lsb) % 128 == lsb,
{
    assert(msb << 7 == msb * 128) by (bit_vector)
        requires
            msb <= 1,
    ;
}

/// Decoding depends on the bytes of the block alone: two ports decoded from
/// equal blocks have the same mask and the same name.
pub proof fn lemma_decode_is_function(first: Port, second: Port, a: Seq<u8>, b: Seq<u8>)
    requires
        a =~= b,
        first@ == decoded(a),
        second@ == decoded(b),
    ensures
        first@.forwards == second@.forwards,
        first@.name == second@.name,
{
}

/// A name as it stands in a block: the characters, then NULs up to eight.
pub open spec fn wire_name(name: Seq<char>) -> Seq<char>
    recommends
        name.len() <= 8,
{
    name + Seq::new((8 - name.len()) as nat, |i: int| '\0')
}

/// Whether `block` holds `mask` and `name` as the wire layout puts them:
/// the top bit and the lower seven bits of the mask's high byte in bytes 0
/// and 1, those of its low byte in bytes 2 and 3, and the characters of the
/// name, one data byte each and filled up with NULs, at the odd offsets from
/// 17 on. The other bytes are free.
pub open spec fn block_holds(block: Seq<u8>, mask: u16, name: Seq<char>) -> bool {
    &&& block.len() == 32
    &&& name.len() <= 8
    &&& is_ascii_chars(name)
    &&& block[0] == mask / 0x8000
    &&& block[1] == (mask / 0x100) % 0x80
    &&& block[2] == (mask / 0x80) % 2
    &&& block[3] == mask % 0x80
    &&& forall|i: int| 0 <= i < 8 ==> block[17 + 2 * i] == #[trigger] wire_name(name)[i] as u8
}

/// NULs added at the end of a name are stripped again.
proof fn lemma_strip_wire_name(name: Seq<char>)
    requires
        name.len() <= 8,
    ensures
        strip_trailing_nul(wire_name(name)) == strip_trailing_nul(name),
{
    let full = wire_name(name);
    assert(full.subrange(0, name.len() as int) =~= name);
    lemma_strip_prefix(full, name.len() as int);
}

/// Round trip: a block that holds mask `mask` and name `name` decodes to
/// that mask and to that name without the NULs at its end.
pub proof fn lemma_decode_round_trip(block: Seq<u8>, mask: u16, name: Seq<char>)
    requires
        block_holds(block, mask, name),
    ensures
        decoded(block).forwards == mask,
        decoded(block).name == strip_trailing_nul(name),
{
    let full = wire_name(name);
    assert(is_ascii_chars(full));
    is_ascii_chars_encode_utf8(full);
    assert(name_bytes(block) =~= encode_utf8(full));
    encode_utf8_valid_utf8(full);
    encode_utf8_decode_utf8(full);
    lemma_strip_wire_name(name);
}

} // verus!
