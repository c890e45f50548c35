use vstd::prelude::*;
use vstd::slice::slice_subrange;

use crate::matrix::Matrix;
use crate::telemetry::{
    decode_matrix_rows, decodes_rows, SOFLE_TELEMETRY_ACK, SOFLE_TELEMETRY_COMMAND,
    SOFLE_TELEMETRY_ENABLE, SOFLE_TELEMETRY_HEARTBEAT,
};

verus! {

/// VIA command: protocol version.
pub const ID_GET_PROTOCOL_VERSION: u8 = 0x01;

/// VIA command: read a keyboard value.
pub const ID_GET_KEYBOARD_VALUE: u8 = 0x02;

/// VIA command: read one keycode of the dynamic keymap.
pub const ID_DYNAMIC_KEYMAP_GET_KEYCODE: u8 = 0x04;

/// VIA command: number of dynamic keymap layers.
pub const ID_DYNAMIC_KEYMAP_GET_LAYER_COUNT: u8 = 0x11;

/// VIA command: read a lighting value.
pub const ID_LIGHTING_GET_VALUE: u8 = 0x08;

/// Keyboard value: the switch matrix state.
pub const ID_SWITCH_MATRIX_STATE: u8 = 0x03;

/// Lighting value: the OLED configuration, which carries the layer names.
pub const VIALRGB_GET_OLED_CONFIG: u8 = 0x52;

/// The VIA protocol version that the board speaks.
pub const SUPPORTED_VIA_PROTOCOL: u16 = 0x0009;

/// Size of a raw-HID packet.
pub const PACKET_SIZE: usize = 32;

/// A 32-byte packet that starts with `b0`, `b1`, `b2`, `b3` and is zero
/// after them.
pub open spec fn command_packet(b0: u8, b1: u8, b2: u8, b3: u8) -> Seq<u8> {
    Seq::new(
        32,
        |i: int|
            if i == 0 {
                b0
            } else if i == 1 {
                b1
            } else if i == 2 {
                b2
            } else if i == 3 {
                b3
            } else {
                0u8
            },
    )
}

/// The big-endian number in two bytes.
pub open spec fn be_u16(high: u8, low: u8) -> u16 {
    (high as int * 256 + low as int) as u16
}

/// The index of the first zero byte at or after `from`, or the length.
pub open spec fn zero_index_from(bytes: Seq<u8>, from: nat) -> nat
    decreases bytes.len() - from,
{
    if from >= bytes.len() {
        bytes.len()
    } else if bytes[from as int] == 0 {
        from
    } else {
        zero_index_from(bytes, from + 1)
    }
}

/// What the standard library's lossy UTF-8 decoding makes of `bytes`.
pub uninterp spec fn lossy_utf8(bytes: Seq<u8>) -> Seq<char>;

/// What the standard library's `str::trim` makes of `text`.
pub uninterp spec fn trimmed(text: Seq<char>) -> Seq<char>;

/// Whether every byte is ASCII.
pub open spec fn all_ascii(bytes: Seq<u8>) -> bool {
    forall|i: int| 0 <= i < bytes.len() ==> bytes[i] < 0x80
}

/// Whether `c` is a printable ASCII character other than space.
pub open spec fn is_ascii_graphic(c: char) -> bool {
    0x21 <= c as u32 <= 0x7e
}

/// `part` is a contiguous stretch of `whole`.
pub open spec fn is_part_of(part: Seq<char>, whole: Seq<char>) -> bool {
    exists|from: int, to: int| 0 <= from <= to <= whole.len() && part == whole.subrange(from, to)
}

/// A text that trimming keeps whole: empty, or starting and ending with a
/// printable non-space ASCII character.
pub open spec fn kept_whole_by_trim(text: Seq<char>) -> bool {
    text.len() == 0 || (is_ascii_graphic(text[0]) && is_ascii_graphic(text.last()))
}

/// Whether `b` is a printable ASCII character other than space.
pub open spec fn is_graphic_byte(b: u8) -> bool {
    0x21 <= b <= 0x7e
}

/// The bytes before the first zero of a field.
pub open spec fn name_bytes(bytes: Seq<u8>) -> Seq<u8> {
    bytes.take(zero_index_from(bytes, 0) as int)
}

/// A field whose name is plain: ASCII, and empty or starting and ending with
/// a printable non-space character.
pub open spec fn is_plain_ascii_name(bytes: Seq<u8>) -> bool {
    let name = name_bytes(bytes);
    all_ascii(name) && (name.len() == 0 || (is_graphic_byte(name[0]) && is_graphic_byte(
        name.last(),
    )))
}

/// The characters of ASCII bytes.
pub open spec fn ascii_chars(bytes: Seq<u8>) -> Seq<char> {
    bytes.map_values(|b: u8| b as char)
}

/// The name in a zero-terminated byte field: the bytes before the first
/// zero, decoded as UTF-8 (invalid sequences replaced) and trimmed.
pub open spec fn spec_bytes_to_name(bytes: Seq<u8>) -> Seq<char> {
    trimmed(lossy_utf8(bytes.take(zero_index_from(bytes, 0) as int)))
}

/// The packet of a raw-HID read of `read` bytes into `buffer`: a leading
/// zero report id is skipped when there are at least 33 bytes; a short read
/// is padded with zeros.
pub open spec fn hid_packet(buffer: Seq<u8>, read: usize) -> Seq<u8> {
    if read >= 33 && buffer[0] == 0 {
        buffer.subrange(1, 33)
    } else if read >= 32 {
        buffer.subrange(0, 32)
    } else {
        Seq::new(
            32,
            |i: int|
                if i < read {
                    buffer[i]
                } else {
                    0u8
                },
        )
    }
}

/// Wraps `String::from_utf8_lossy`: valid UTF-8 is decoded as it is and
/// invalid sequences become U+FFFD. The contract names the result and
/// states the documented case of ASCII input, which decodes byte for
/// character; it says nothing of other input.
#[verifier::external_body]
fn utf8_lossy_text(bytes: &[u8]) -> (r: String)
    ensures
        r@ == lossy_utf8(bytes@),
        all_ascii(bytes@) ==> r@ == bytes@.map_values(|b: u8| b as char),
{
    String::from_utf8_lossy(bytes).into_owned()
}

/// Wraps `str::trim`, which drops leading and trailing Unicode white space.
/// The contract names the result and states that it is a contiguous part
/// of the input, and that a text which is empty or starts and ends with
/// printable non-space ASCII is kept whole; it does not list which
/// characters count as white space.
#[verifier::external_body]
fn trim_text(text: &str) -> (r: String)
    ensures
        r@ == trimmed(text@),
        is_part_of(r@, text@),
        kept_whole_by_trim(text@) ==> r@ == text@,
{
    text.trim().to_owned()
}

/// The index of the first zero byte, or the length when there is none.
fn zero_index(bytes: &[u8]) -> (r: usize)
    ensures
        r == zero_index_from(bytes@, 0),
{
    let mut i: usize = 0;
    while i < bytes.len()
        invariant
            i <= bytes@.len(),
            zero_index_from(bytes@, 0) == zero_index_from(bytes@, i as nat),
        decreases bytes.len() - i,
    {
        if bytes[i] == 0 {
            return i;
        }
        i = i + 1;
    }
    i
}

/// The name held in a zero-terminated byte field.
pub fn bytes_to_name(bytes: &[u8]) -> (r: String)
    ensures
        r@ == spec_bytes_to_name(bytes@),
        is_plain_ascii_name(bytes@) ==> r@ == ascii_chars(name_bytes(bytes@)),
{
    let end = zero_index(bytes);
    proof {
        lemma_zero_index_bound(bytes@, 0);
    }
    let name = slice_subrange(bytes, 0, end);
    assert(name@ =~= bytes@.take(end as int));
    let text = utf8_lossy_text(name);
    proof {
        if is_plain_ascii_name(bytes@) {
            assert(text@ == ascii_chars(name@));
            if name@.len() > 0 {
                assert(text@[0] == name@[0] as char);
                assert(text@.last() == name@.last() as char);
            }
            assert(kept_whole_by_trim(text@));
        }
    }
    trim_text(text.as_str())
}

proof fn lemma_zero_index_bound(bytes: Seq<u8>, from: nat)
    ensures
        zero_index_from(bytes, from) <= bytes.len(),
        from <= bytes.len() ==> from <= zero_index_from(bytes, from),
    decreases bytes.len() - from,
{
    if from < bytes.len() && bytes[from as int] != 0 {
        lemma_zero_index_bound(bytes, from + 1);
    }
}

/// A 32-byte command packet.
fn command(b0: u8, b1: u8, b2: u8, b3: u8) -> (r: [u8; 32])
    ensures
        r@ == command_packet(b0, b1, b2, b3),
{
    let mut request = [0u8; 32];
    request[0] = b0;
    request[1] = b1;
    request[2] = b2;
    request[3] = b3;
    assert(request@ =~= command_packet(b0, b1, b2, b3));
    request
}

/// The request for the VIA protocol version.
pub fn protocol_version_request() -> (r: [u8; 32])
    ensures
        r@ == command_packet(ID_GET_PROTOCOL_VERSION, 0, 0, 0),
{
    command(ID_GET_PROTOCOL_VERSION, 0, 0, 0)
}

/// The protocol version in a reply, or `None` when the reply does not
/// answer the version request (the endpoint is not a VIA one).
pub fn decode_protocol_version(response: &[u8; 32]) -> (r: Option<u16>)
    ensures
        r == if response@[0] == ID_GET_PROTOCOL_VERSION {
            Some(be_u16(response@[1], response@[2]))
        } else {
            None::<u16>
        },
{
    if response[0] != ID_GET_PROTOCOL_VERSION {
        return None;
    }
    Some((response[1] as u16) * 256 + (response[2] as u16))
}

/// Whether the board reported the VIA protocol version this viewer speaks.
pub fn is_supported_protocol(version: u16) -> (r: bool)
    ensures
        r == (version == SUPPORTED_VIA_PROTOCOL),
{
    version == SUPPORTED_VIA_PROTOCOL
}

/// The request for the number of dynamic keymap layers.
pub fn layer_count_request() -> (r: [u8; 32])
    ensures
        r@ == command_packet(ID_DYNAMIC_KEYMAP_GET_LAYER_COUNT, 0, 0, 0),
{
    command(ID_DYNAMIC_KEYMAP_GET_LAYER_COUNT, 0, 0, 0)
}

/// The number of layers in a reply to the layer count request.
pub fn decode_layer_count(response: &[u8; 32]) -> (r: usize)
    ensures
        r == response@[1] as usize,
{
    response[1] as usize
}

/// The request for the OLED name of `item` (a layer, or 0xff for the
/// board).
pub fn oled_name_request(item: u8) -> (r: [u8; 32])
    ensures
        r@ == command_packet(ID_LIGHTING_GET_VALUE, VIALRGB_GET_OLED_CONFIG, item, 0),
{
    command(ID_LIGHTING_GET_VALUE, VIALRGB_GET_OLED_CONFIG, item, 0)
}

/// The name in a reply to the OLED name request: bytes 3 to 7.
pub fn decode_oled_name(response: &[u8; 32]) -> (r: String)
    ensures
        r@ == spec_bytes_to_name(response@.subrange(3, 8)),
        is_plain_ascii_name(response@.subrange(3, 8)) ==> r@ == ascii_chars(
            name_bytes(response@.subrange(3, 8)),
        ),
{
    let all = response.as_slice();
    let field = slice_subrange(all, 3, 8);
    bytes_to_name(field)
}

/// The request for the keycode at `layer`, `row`, `col`.
pub fn keycode_request(layer: u8, row: u8, col: u8) -> (r: [u8; 32])
    ensures
        r@ == command_packet(ID_DYNAMIC_KEYMAP_GET_KEYCODE, layer, row, col),
{
    command(ID_DYNAMIC_KEYMAP_GET_KEYCODE, layer, row, col)
}

/// The keycode in a reply to the keycode request: bytes 4 and 5, big-endian.
pub fn decode_keycode(response: &[u8; 32]) -> (r: u16)
    ensures
        r == be_u16(response@[4], response@[5]),
{
    (response[4] as u16) * 256 + (response[5] as u16)
}

/// The request for the switch matrix state.
pub fn switch_matrix_request() -> (r: [u8; 32])
    ensures
        r@ == command_packet(ID_GET_KEYBOARD_VALUE, ID_SWITCH_MATRIX_STATE, 0, 0),
{
    command(ID_GET_KEYBOARD_VALUE, ID_SWITCH_MATRIX_STATE, 0, 0)
}

/// The matrix in a reply to the switch matrix request: one byte per row
/// from byte 2 on.
pub fn decode_switch_matrix(response: &[u8; 32]) -> (m: Matrix)
    ensures
        decodes_rows(m, response@, 2),
{
    decode_matrix_rows(response, 2)
}

/// The request that turns telemetry on.
pub fn telemetry_enable_request() -> (r: [u8; 32])
    ensures
        r@ == command_packet(SOFLE_TELEMETRY_COMMAND, SOFLE_TELEMETRY_ENABLE, 1, 0),
{
    command(SOFLE_TELEMETRY_COMMAND, SOFLE_TELEMETRY_ENABLE, 1, 0)
}

/// The packet that keeps telemetry alive: a heartbeat for firmware that
/// speaks the newer telemetry protocol, the enable command otherwise.
pub fn telemetry_heartbeat_request(new_telemetry_protocol: bool) -> (r: [u8; 32])
    ensures
        r@ == command_packet(
            SOFLE_TELEMETRY_COMMAND,
            if new_telemetry_protocol {
                SOFLE_TELEMETRY_HEARTBEAT
            } else {
                SOFLE_TELEMETRY_ENABLE
            },
            1,
            0,
        ),
{
    let kind = if new_telemetry_protocol {
        SOFLE_TELEMETRY_HEARTBEAT
    } else {
        SOFLE_TELEMETRY_ENABLE
    };
    command(SOFLE_TELEMETRY_COMMAND, kind, 1, 0)
}

/// The acknowledgement of the telemetry event numbered `seq`.
pub fn telemetry_ack_request(seq: u8) -> (r: [u8; 32])
    ensures
        r@ == command_packet(SOFLE_TELEMETRY_COMMAND, SOFLE_TELEMETRY_ACK, 1, seq),
{
    command(SOFLE_TELEMETRY_COMMAND, SOFLE_TELEMETRY_ACK, 1, seq)
}

/// The 33-byte HID output report for `packet`: report id 0, then the packet.
pub fn hid_output_report(packet: &[u8; 32]) -> (r: [u8; 33])
    ensures
        r@ == seq![0u8] + packet@,
{
    let mut report = [0u8; 33];
    let mut i: usize = 0;
    while i < PACKET_SIZE
        invariant
            i <= PACKET_SIZE,
            report@[0] == 0,
            forall|j: int| 0 <= j < i ==> report@[j + 1] == packet@[j],
        decreases PACKET_SIZE - i,
    {
        report[i + 1] = packet[i];
        i = i + 1;
    }
    assert(report@ =~= seq![0u8] + packet@);
    report
}

/// The packet in a raw-HID read of `read` bytes into `buffer`.
pub fn packet_from_hid_buffer(buffer: &[u8; 64], read: usize) -> (r: [u8; 32])
    ensures
        r@ == hid_packet(buffer@, read),
{
    let mut packet = [0u8; 32];
    let start: usize = if read >= 33 && buffer[0] == 0 {
        1
    } else {
        0
    };
    let count: usize = if read >= 32 {
        32
    } else {
        read
    };
    let mut i: usize = 0;
    while i < count
        invariant
            i <= count,
            count <= 32,
            start <= 1,
            forall|j: int| 0 <= j < i ==> packet@[j] == buffer@[start + j],
            forall|j: int| i <= j < 32 ==> packet@[j] == 0,
        decreases count - i,
    {
        packet[i] = buffer[start + i];
        i = i + 1;
    }
    assert(packet@ =~= hid_packet(buffer@, read));
    packet
}

/// A timeout in milliseconds as the `i32` that poll and hidapi take,
/// saturated at `i32::MAX`.
pub fn duration_to_i32_millis(millis: u128) -> (r: i32)
    ensures
        r as int == if millis < i32::MAX as u128 {
            millis as int
        } else {
            i32::MAX as int
        },
{
    if millis < i32::MAX as u128 {
        millis as i32
    } else {
        i32::MAX
    }
}

/// Whether `c` is an ASCII decimal digit.
pub open spec fn is_decimal_digit(c: char) -> bool {
    '0' <= c <= '9'
}

/// The number written by the decimal digits `digits`.
pub open spec fn digits_value(digits: Seq<char>) -> nat
    decreases digits.len(),
{
    if digits.len() == 0 {
        0
    } else {
        digits_value(digits.drop_last()) * 10 + (digits.last() as nat - 48) as nat
    }
}

/// `text` without a leading "+".
pub open spec fn sign_stripped(text: Seq<char>) -> Seq<char> {
    if text.len() > 0 && text[0] == '+' {
        text.drop_first()
    } else {
        text
    }
}

/// Every character of `text` is a decimal digit.
pub open spec fn all_digits(text: Seq<char>) -> bool {
    forall|i: int| 0 <= i < text.len() ==> is_decimal_digit(#[trigger] text[i])
}

/// The `u32` that `text` writes, as the standard library parses it: an
/// optional "+", then at least one decimal digit, and no more than
/// `u32::MAX`.
pub open spec fn parsed_u32(text: Seq<char>) -> Option<u32> {
    let digits = sign_stripped(text);
    if digits.len() > 0 && all_digits(digits) && digits_value(digits) <= u32::MAX {
        Some(digits_value(digits) as u32)
    } else {
        None
    }
}

/// The order of a hidraw device by its file name: the number after
/// "hidraw", or `u32::MAX` (last) when there is none.
pub open spec fn hidraw_order(file_name: Seq<char>) -> u32 {
    if file_name.len() >= 6 && file_name.take(6) == "hidraw"@ {
        match parsed_u32(file_name.skip(6)) {
            Some(n) => n,
            None => u32::MAX,
        }
    } else {
        u32::MAX
    }
}

/// The number written in `text`, as `str::parse::<u32>` reads it.
fn parse_u32_text(text: &str) -> (r: Option<u32>)
    ensures
        r == parsed_u32(text@),
{
    let len = text.unicode_len();
    let start: usize = if len > 0 && text.get_char(0) == '+' {
        1
    } else {
        0
    };
    let ghost digits = sign_stripped(text@);
    assert(digits =~= text@.subrange(start as int, len as int));
    if start >= len {
        return None;
    }
    let mut value: u64 = 0;
    let mut overflow = false;
    let mut i: usize = start;
    while i < len
        invariant
            len == text@.len(),
            start <= i <= len,
            start < len,
            digits == text@.subrange(start as int, len as int),
            digits == sign_stripped(text@),
            forall|j: int| 0 <= j < i - start ==> is_decimal_digit(#[trigger] digits[j]),
            overflow == (digits_value(digits.take(i - start)) > u32::MAX),
            !overflow ==> value == digits_value(digits.take(i - start)),
        decreases len - i,
    {
        let c = text.get_char(i);
        if !('0' <= c && c <= '9') {
            assert(!is_decimal_digit(digits[i - start]));
            assert(!all_digits(digits));
            return None;
        }
        let ghost before = digits.take(i - start);
        assert(digits.take(i - start + 1).drop_last() =~= before);
        assert(digits.take(i - start + 1).last() == c);
        if !overflow {
            let next = value * 10 + (c as u64 - 48);
            if next > u32::MAX as u64 {
                overflow = true;
            } else {
                value = next;
            }
        }
        i = i + 1;
    }
    assert(digits.take(len - start) =~= digits);
    assert(all_digits(digits));
    if overflow {
        None
    } else {
        Some(value as u32)
    }
}

/// The sort key of a hidraw device file name.
pub fn hidraw_sort_key(file_name: &str) -> (r: u32)
    ensures
        r == hidraw_order(file_name@),
{
    proof {
        reveal_strlit("hidraw");
    }
    let len = file_name.unicode_len();
    if len < 6 {
        return u32::MAX;
    }
    let head = file_name.substring_char(0, 6);
    if !crate::text::text_equals(head, "hidraw") {
        return u32::MAX;
    }
    let rest = file_name.substring_char(6, len);
    assert(rest@ =~= file_name@.skip(6));
    match parse_u32_text(rest) {
        Some(n) => n,
        None => u32::MAX,
    }
}

} // verus!
