use vstd::prelude::*;

use crate::matrix::{empty_matrix, pressed_at, Matrix, COLS, MAX_LAYERS, ROWS};
use crate::report::{lemma_row_byte_bits, row_byte, row_hex_texts, spec_matrix_rows_hex};
use crate::text::{hex_byte, joined};

verus! {

/// Report id of the firmware's telemetry command.
pub const SOFLE_TELEMETRY_COMMAND: u8 = 0x7a;

/// Telemetry sub-command: turn telemetry on.
pub const SOFLE_TELEMETRY_ENABLE: u8 = 0x01;

/// Telemetry sub-command: acknowledge an event.
pub const SOFLE_TELEMETRY_ACK: u8 = 0x02;

/// Telemetry sub-command: keep telemetry alive.
pub const SOFLE_TELEMETRY_HEARTBEAT: u8 = 0x03;

/// Telemetry packet type: a matrix, layer or touchpad event.
pub const SOFLE_TELEMETRY_EVENT: u8 = 0x10;

/// Telemetry packet type: answer to the enable command.
pub const SOFLE_TELEMETRY_ENABLED: u8 = 0x81;

/// Telemetry packet type: answer to an acknowledgement.
pub const SOFLE_TELEMETRY_ACKED: u8 = 0x82;

/// Telemetry packet type: answer to a heartbeat.
pub const SOFLE_TELEMETRY_HEARTBEAT_RESPONSE: u8 = 0x83;

/// Number of touchpad contacts in a telemetry packet.
pub const TOUCH_CONTACTS: usize = 5;

/// One finger on the touchpad.
#[derive(Clone, Copy, PartialEq, Eq, Structural, Debug)]
pub struct TouchContact {
    pub active: bool,
    pub x: u8,
    pub y: u8,
}

/// The touchpad part of a telemetry packet.
#[derive(Clone, Copy, PartialEq, Eq, Debug)]
pub struct TouchpadTelemetry {
    pub enabled: bool,
    pub ptp_mode: bool,
    pub contacts: [TouchContact; 5],
}

/// What a telemetry packet answers.
#[derive(Clone, Copy, PartialEq, Eq, Structural, Debug)]
pub enum TelemetryKind {
    Event,
    Enabled,
    Heartbeat,
}

/// A decoded telemetry packet.
#[derive(Clone, Copy, Debug)]
pub struct TelemetryEvent {
    pub matrix: Matrix,
    pub active_layer: usize,
    pub kind: TelemetryKind,
    pub protocol: u8,
    pub seq: u8,
    pub flags: u8,
    pub touchpad: TouchpadTelemetry,
}

/// Bit `bit` of `byte`.
pub open spec fn byte_bit(byte: u8, bit: int) -> bool {
    (byte >> (bit as u8)) & 1u8 == 1u8
}

/// `m` holds the rows encoded in `bytes[offset..offset + ROWS]`: column `c`
/// of row `r` is bit `c` of byte `offset + r`.
pub open spec fn decodes_rows(m: Matrix, bytes: Seq<u8>, offset: int) -> bool {
    forall|row: int, col: int|
        0 <= row < ROWS && 0 <= col < COLS ==> #[trigger] pressed_at(m, row, col) == byte_bit(
            bytes[offset + row],
            col,
        )
}

/// A contact that is not touching, at the origin.
pub open spec fn no_contact() -> TouchContact {
    TouchContact { active: false, x: 0, y: 0 }
}

/// A touchpad that is off and has no contact.
pub open spec fn is_idle_touchpad(t: TouchpadTelemetry) -> bool {
    &&& !t.enabled
    &&& !t.ptp_mode
    &&& forall|i: int| 0 <= i < TOUCH_CONTACTS ==> #[trigger] t.contacts@[i] == no_contact()
}

/// `t` is the touchpad state carried by `packet` under `protocol`: version 1
/// packets carry none; from version 2 on, byte 16 holds the active contact
/// bits, bytes 18.. the x and y of each contact, and bytes 28 and 29 the
/// enabled and precision-touchpad flags.
pub open spec fn decodes_touchpad(t: TouchpadTelemetry, protocol: u8, packet: Seq<u8>) -> bool {
    if protocol < 2 {
        is_idle_touchpad(t)
    } else {
        &&& t.enabled == (packet[28] != 0)
        &&& t.ptp_mode == (packet[29] != 0)
        &&& forall|i: int|
            0 <= i < TOUCH_CONTACTS ==> #[trigger] t.contacts@[i] == (TouchContact {
                active: byte_bit(packet[16], i),
                x: packet[18 + 2 * i],
                y: packet[19 + 2 * i],
            })
    }
}

/// The kind of telemetry packet named by byte 1, if it is one that is
/// accepted: events always, the enable and heartbeat answers when
/// `allow_enabled_response` holds.
pub open spec fn telemetry_kind_of(packet: Seq<u8>, allow_enabled_response: bool) -> Option<
    TelemetryKind,
> {
    if packet[1] == SOFLE_TELEMETRY_EVENT {
        Some(TelemetryKind::Event)
    } else if allow_enabled_response && packet[1] == SOFLE_TELEMETRY_ENABLED {
        Some(TelemetryKind::Enabled)
    } else if allow_enabled_response && packet[1] == SOFLE_TELEMETRY_HEARTBEAT_RESPONSE {
        Some(TelemetryKind::Heartbeat)
    } else {
        None
    }
}

/// Whether `packet` is a telemetry packet that is decoded: the telemetry
/// report id, an accepted kind, and protocol version 1 or 2.
pub open spec fn is_telemetry_packet(packet: Seq<u8>, allow_enabled_response: bool) -> bool {
    &&& packet[0] == SOFLE_TELEMETRY_COMMAND
    &&& telemetry_kind_of(packet, allow_enabled_response) is Some
    &&& 1 <= packet[2] <= 2
}

/// `e` is the event that `packet` encodes: kind from byte 1, protocol from
/// byte 2, active layer from byte 3 (at most the last layer), the matrix
/// rows from bytes 4.., sequence number and flags from bytes 14 and 15, and
/// the touchpad state.
pub open spec fn decodes_event(e: TelemetryEvent, packet: Seq<u8>, allow_enabled_response: bool) -> bool {
    &&& Some(e.kind) == telemetry_kind_of(packet, allow_enabled_response)
    &&& e.protocol == packet[2]
    &&& e.active_layer == if packet[3] < MAX_LAYERS - 1 {
        packet[3] as usize
    } else {
        (MAX_LAYERS - 1) as usize
    }
    &&& decodes_rows(e.matrix, packet, 4)
    &&& e.seq == packet[14]
    &&& e.flags == packet[15]
    &&& decodes_touchpad(e.touchpad, e.protocol, packet)
}

/// The number of touching contacts among the first `n`.
pub open spec fn active_contacts(t: TouchpadTelemetry, n: nat) -> nat
    decreases n,
{
    if n == 0 {
        0
    } else {
        active_contacts(t, (n - 1) as nat) + if t.contacts@[n - 1].active {
            1nat
        } else {
            0nat
        }
    }
}

impl TelemetryKind {
    /// The name of the kind, as written in traces.
    pub fn as_str(self) -> (r: &'static str)
        ensures
            r@ == match self {
                TelemetryKind::Event => "event"@,
                TelemetryKind::Enabled => "enabled"@,
                TelemetryKind::Heartbeat => "heartbeat"@,
            },
    {
        match self {
            TelemetryKind::Event => "event",
            TelemetryKind::Enabled => "enabled",
            TelemetryKind::Heartbeat => "heartbeat",
        }
    }
}

impl Default for TouchContact {
    /// Not touching, at the origin.
    fn default() -> (r: Self)
        ensures
            r == no_contact(),
    {
        TouchContact { active: false, x: 0, y: 0 }
    }
}

impl Default for TouchpadTelemetry {
    /// Off, with no contact.
    fn default() -> (r: Self)
        ensures
            is_idle_touchpad(r),
    {
        idle_touchpad()
    }
}

/// A touchpad that is off, with no contact.
pub fn idle_touchpad() -> (r: TouchpadTelemetry)
    ensures
        is_idle_touchpad(r),
{
    let none = TouchContact { active: false, x: 0, y: 0 };
    TouchpadTelemetry { enabled: false, ptp_mode: false, contacts: [none, none, none, none, none] }
}

/// Bit `bit` of `byte`, as the firmware packs switch and contact states.
fn bit_of(byte: u8, bit: usize) -> (r: bool)
    requires
        bit < 8,
    ensures
        r == byte_bit(byte, bit as int),
{
    let b = bit as u8;
    assert(((byte & (1u8 << b)) != 0) == ((byte >> b) & 1u8 == 1u8)) by (bit_vector)
        requires
            b < 8,
    ;
    (byte & (1u8 << b)) != 0
}

/// The matrix encoded by the row bytes `bytes[offset..offset + ROWS]`.
pub fn decode_matrix_rows(bytes: &[u8; 32], offset: usize) -> (m: Matrix)
    requires
        offset + ROWS <= 32,
    ensures
        decodes_rows(m, bytes@, offset as int),
{
    let mut matrix = empty_matrix();
    let mut row: usize = 0;
    while row < ROWS
        invariant
            row <= ROWS,
            offset + ROWS <= 32,
            forall|r: int, c: int|
                0 <= r < row && 0 <= c < COLS ==> #[trigger] pressed_at(matrix, r, c) == byte_bit(
                    bytes@[offset + r],
                    c,
                ),
        decreases ROWS - row,
    {
        let bits = bytes[offset + row];
        let mut col: usize = 0;
        while col < COLS
            invariant
                row < ROWS,
                col <= COLS,
                offset + ROWS <= 32,
                bits == bytes@[offset + row],
                forall|r: int, c: int|
                    0 <= r < row && 0 <= c < COLS ==> #[trigger] pressed_at(matrix, r, c)
                        == byte_bit(bytes@[offset + r], c),
                forall|c: int|
                    0 <= c < col ==> #[trigger] pressed_at(matrix, row as int, c) == byte_bit(
                        bits,
                        c,
                    ),
            decreases COLS - col,
        {
            let ghost before = matrix;
            matrix[row][col] = bit_of(bits, col);
            assert(forall|r: int| 0 <= r < ROWS && r != row ==> matrix@[r] == before@[r]);
            assert(matrix@[row as int]@ == before@[row as int]@.update(col as int, byte_bit(bits, col as int)));
            assert forall|r: int, c: int|
                0 <= r < row && 0 <= c < COLS implies #[trigger] pressed_at(matrix, r, c)
                    == byte_bit(bytes@[offset + r], c) by {
                assert(pressed_at(before, r, c) == byte_bit(bytes@[offset + r], c));
            }
            assert forall|c: int| 0 <= c < col + 1 implies #[trigger] pressed_at(matrix, row as int, c)
                == byte_bit(bits, c) by {
                if c < col {
                    assert(pressed_at(before, row as int, c) == byte_bit(bits, c));
                }
            }
            col = col + 1;
        }
        row = row + 1;
    }
    matrix
}

/// The touchpad state carried by `packet` under `protocol`.
pub fn parse_touchpad_telemetry(protocol: u8, packet: &[u8; 32]) -> (t: TouchpadTelemetry)
    ensures
        decodes_touchpad(t, protocol, packet@),
{
    if protocol < 2 {
        return idle_touchpad();
    }
    let none = TouchContact { active: false, x: 0, y: 0 };
    let mut contacts = [none, none, none, none, none];
    let mask = packet[16];
    let mut index: usize = 0;
    while index < TOUCH_CONTACTS
        invariant
            index <= TOUCH_CONTACTS,
            mask == packet@[16],
            forall|i: int|
                0 <= i < index ==> #[trigger] contacts@[i] == (TouchContact {
                    active: byte_bit(packet@[16], i),
                    x: packet@[18 + 2 * i],
                    y: packet@[19 + 2 * i],
                }),
        decreases TOUCH_CONTACTS - index,
    {
        contacts[index] = TouchContact {
            active: bit_of(mask, index),
            x: packet[18 + (index * 2)],
            y: packet[19 + (index * 2)],
        };
        index = index + 1;
    }
    TouchpadTelemetry { enabled: packet[28] != 0, ptp_mode: packet[29] != 0, contacts }
}

/// Decodes a telemetry packet; the enable and heartbeat answers are
/// accepted only when `allow_enabled_response` holds.
pub fn parse_telemetry_packet_kind(packet: &[u8; 32], allow_enabled_response: bool) -> (r: Option<
    TelemetryEvent,
>)
    ensures
        r is Some <==> is_telemetry_packet(packet@, allow_enabled_response),
        r matches Some(e) ==> decodes_event(e, packet@, allow_enabled_response),
{
    if packet[0] != SOFLE_TELEMETRY_COMMAND {
        return None;
    }
    let kind = if packet[1] == SOFLE_TELEMETRY_EVENT {
        TelemetryKind::Event
    } else if packet[1] == SOFLE_TELEMETRY_ENABLED && allow_enabled_response {
        TelemetryKind::Enabled
    } else if packet[1] == SOFLE_TELEMETRY_HEARTBEAT_RESPONSE && allow_enabled_response {
        TelemetryKind::Heartbeat
    } else {
        return None;
    };
    if packet[1] != SOFLE_TELEMETRY_EVENT && !allow_enabled_response {
        return None;
    }
    let protocol = packet[2];
    if !(1 <= protocol && protocol <= 2) {
        return None;
    }
    let matrix = decode_matrix_rows(packet, 4);
    let layer = packet[3] as usize;
    let active_layer = if layer < MAX_LAYERS - 1 {
        layer
    } else {
        MAX_LAYERS - 1
    };
    Some(
        TelemetryEvent {
            matrix,
            active_layer,
            kind,
            protocol,
            seq: packet[14],
            flags: packet[15],
            touchpad: parse_touchpad_telemetry(protocol, packet),
        },
    )
}

/// Decodes the answer to the enable command (or any other telemetry packet).
pub fn parse_telemetry_packet(packet: &[u8; 32]) -> (r: Option<TelemetryEvent>)
    ensures
        r is Some <==> is_telemetry_packet(packet@, true),
        r matches Some(e) ==> decodes_event(e, packet@, true),
{
    parse_telemetry_packet_kind(packet, true)
}

/// Decodes a telemetry packet that arrived while waiting for events.
pub fn parse_telemetry_live_packet(packet: &[u8; 32]) -> (r: Option<TelemetryEvent>)
    ensures
        r is Some <==> is_telemetry_packet(packet@, true),
        r matches Some(e) ==> decodes_event(e, packet@, true),
{
    parse_telemetry_packet_kind(packet, true)
}

/// The number of contacts touching the touchpad.
pub fn touchpad_count(touchpad: &TouchpadTelemetry) -> (r: usize)
    ensures
        r == active_contacts(*touchpad, TOUCH_CONTACTS as nat),
{
    let mut count: usize = 0;
    let mut index: usize = 0;
    while index < TOUCH_CONTACTS
        invariant
            index <= TOUCH_CONTACTS,
            count == active_contacts(*touchpad, index as nat),
            count <= index,
        decreases TOUCH_CONTACTS - index,
    {
        if touchpad.contacts[index].active {
            count = count + 1;
        }
        index = index + 1;
    }
    count
}

/// Whether two touchpad states are the same.
pub fn touchpad_equals(a: &TouchpadTelemetry, b: &TouchpadTelemetry) -> (r: bool)
    ensures
        r == (*a == *b),
{
    if a.enabled != b.enabled || a.ptp_mode != b.ptp_mode {
        return false;
    }
    let mut index: usize = 0;
    while index < TOUCH_CONTACTS
        invariant
            index <= TOUCH_CONTACTS,
            forall|i: int| 0 <= i < index ==> a.contacts@[i] == b.contacts@[i],
        decreases TOUCH_CONTACTS - index,
    {
        if a.contacts[index] != b.contacts[index] {
            return false;
        }
        index = index + 1;
    }
    assert(a.contacts@ =~= b.contacts@);
    assert(a.contacts =~= b.contacts);
    true
}

/// A row decoder gives back every matrix whose row bytes it is handed: two
/// matrices decoded from the same bytes are the same matrix.
pub proof fn lemma_decoded_rows_unique(a: Matrix, b: Matrix, bytes: Seq<u8>, offset: int)
    requires
        decodes_rows(a, bytes, offset),
        decodes_rows(b, bytes, offset),
    ensures
        a == b,
{
    assert forall|row: int| 0 <= row < ROWS implies a@[row] == b@[row] by {
        assert forall|col: int| 0 <= col < COLS implies a@[row]@[col] == b@[row]@[col] by {
            assert(pressed_at(a, row, col) == pressed_at(b, row, col));
        }
        assert(a@[row]@ =~= b@[row]@);
        assert(a@[row] =~= b@[row]);
    }
    assert(a@ =~= b@);
    assert(a =~= b);
}

/// Row bytes made from a matrix decode back to that matrix: the byte of
/// each row (bit `c` for column `c`) is exactly what the row decoder reads.
pub proof fn lemma_row_bytes_round_trip(m: Matrix, decoded: Matrix, bytes: Seq<u8>, offset: int)
    requires
        forall|row: int| 0 <= row < ROWS ==> #[trigger] bytes[offset + row] == row_byte(m, row),
        decodes_rows(decoded, bytes, offset),
    ensures
        decoded == m,
{
    assert(decodes_rows(m, bytes, offset)) by {
        assert forall|row: int, col: int| 0 <= row < ROWS && 0 <= col < COLS implies #[trigger]
            pressed_at(m, row, col) == byte_bit(bytes[offset + row], col) by {
            assert(bytes[offset + row] == row_byte(m, row));
            lemma_row_byte_bits(m, row, col);
        }
    }
    lemma_decoded_rows_unique(decoded, m, bytes, offset);
}

/// The hexadecimal texts of the row bytes `bytes[offset..offset + ROWS]`,
/// each masked to its seven column bits.
pub open spec fn masked_row_hex_texts(bytes: Seq<u8>, offset: int) -> Seq<Seq<char>> {
    Seq::new(ROWS as nat, |row: int| hex_byte(bytes[offset + row] & 0x7fu8))
}

/// The number of set bits of `byte` below bit `n`.
pub open spec fn set_bits_below(byte: u8, n: nat) -> nat
    decreases n,
{
    if n == 0 {
        0
    } else {
        set_bits_below(byte, (n - 1) as nat) + if byte_bit(byte, n - 1) {
            1nat
        } else {
            0nat
        }
    }
}

proof fn lemma_u8_ext(a: u8, b: u8)
    requires
        forall|c: int| 0 <= c < 8 ==> byte_bit(a, c) == byte_bit(b, c),
    ensures
        a == b,
{
    assert(byte_bit(a, 0) == byte_bit(b, 0));
    assert(byte_bit(a, 1) == byte_bit(b, 1));
    assert(byte_bit(a, 2) == byte_bit(b, 2));
    assert(byte_bit(a, 3) == byte_bit(b, 3));
    assert(byte_bit(a, 4) == byte_bit(b, 4));
    assert(byte_bit(a, 5) == byte_bit(b, 5));
    assert(byte_bit(a, 6) == byte_bit(b, 6));
    assert(byte_bit(a, 7) == byte_bit(b, 7));
    assert(a == b) by (bit_vector)
        requires
            ((a >> 0u8) & 1u8 == 1u8) == ((b >> 0u8) & 1u8 == 1u8),
            ((a >> 1u8) & 1u8 == 1u8) == ((b >> 1u8) & 1u8 == 1u8),
            ((a >> 2u8) & 1u8 == 1u8) == ((b >> 2u8) & 1u8 == 1u8),
            ((a >> 3u8) & 1u8 == 1u8) == ((b >> 3u8) & 1u8 == 1u8),
            ((a >> 4u8) & 1u8 == 1u8) == ((b >> 4u8) & 1u8 == 1u8),
            ((a >> 5u8) & 1u8 == 1u8) == ((b >> 5u8) & 1u8 == 1u8),
            ((a >> 6u8) & 1u8 == 1u8) == ((b >> 6u8) & 1u8 == 1u8),
            ((a >> 7u8) & 1u8 == 1u8) == ((b >> 7u8) & 1u8 == 1u8),
    ;
}

/// The byte of a decoded row is the row byte it came from, masked to its
/// seven column bits.
proof fn lemma_decoded_row_byte(m: Matrix, bytes: Seq<u8>, offset: int, row: int)
    requires
        decodes_rows(m, bytes, offset),
        0 <= row < ROWS,
    ensures
        row_byte(m, row) == bytes[offset + row] & 0x7fu8,
{
    let a = row_byte(m, row);
    let b = bytes[offset + row];
    assert forall|c: int| 0 <= c < 8 implies byte_bit(a, c) == byte_bit(b & 0x7fu8, c) by {
        lemma_row_byte_bits(m, row, c);
        let s = c as u8;
        assert((((b & 0x7fu8) >> s) & 1u8 == 1u8) <==> (s < 7 && (b >> s) & 1u8 == 1u8))
            by (bit_vector)
            requires
                s < 8,
        ;
        if c < 7 {
            assert(pressed_at(m, row, c) == byte_bit(b, c));
        }
    }
    lemma_u8_ext(a, b & 0x7fu8);
}

proof fn lemma_joined_pairs_len(items: Seq<Seq<char>>, sep: Seq<char>)
    requires
        items.len() >= 1,
        sep.len() == 1,
        forall|i: int| 0 <= i < items.len() ==> #[trigger] items[i].len() == 2,
    ensures
        joined(items, sep).len() == 3 * items.len() - 1,
    decreases items.len(),
{
    if items.len() > 1 {
        lemma_joined_pairs_len(items.drop_last(), sep);
    }
}

/// The hexadecimal rows of a decoded matrix are the hexadecimal row bytes
/// it was decoded from, each masked to its seven column bits, joined by
/// colons: 29 characters in all.
pub proof fn lemma_decoded_rows_hex(m: Matrix, bytes: Seq<u8>, offset: int)
    requires
        decodes_rows(m, bytes, offset),
    ensures
        spec_matrix_rows_hex(m) == joined(masked_row_hex_texts(bytes, offset), ":"@),
        spec_matrix_rows_hex(m).len() == 29,
{
    assert forall|row: int| 0 <= row < ROWS implies #[trigger] row_hex_texts(m)[row]
        == masked_row_hex_texts(bytes, offset)[row] by {
        lemma_decoded_row_byte(m, bytes, offset, row);
    }
    assert(row_hex_texts(m) =~= masked_row_hex_texts(bytes, offset));
    reveal_strlit(":");
    lemma_joined_pairs_len(row_hex_texts(m), ":"@);
}

/// The hexadecimal rows of the matrix of a decoded telemetry packet are its
/// row bytes 4 to 13, masked to seven bits, joined by colons.
pub proof fn lemma_telemetry_rows_hex(e: TelemetryEvent, packet: Seq<u8>, allow_enabled_response: bool)
    requires
        decodes_event(e, packet, allow_enabled_response),
    ensures
        spec_matrix_rows_hex(e.matrix) == joined(masked_row_hex_texts(packet, 4), ":"@),
        spec_matrix_rows_hex(e.matrix).len() == 29,
{
    lemma_decoded_rows_hex(e.matrix, packet, 4);
}

proof fn lemma_set_bits_at_most(byte: u8, n: nat)
    ensures
        set_bits_below(byte, n) <= n,
    decreases n,
{
    if n > 0 {
        lemma_set_bits_at_most(byte, (n - 1) as nat);
    }
}

proof fn lemma_low_five_bits(byte: u8, n: nat)
    requires
        n <= 8,
    ensures
        set_bits_below(byte & 0x1fu8, n) == set_bits_below(
            byte,
            if n < 5 {
                n
            } else {
                5
            },
        ),
    decreases n,
{
    if n > 0 {
        lemma_low_five_bits(byte, (n - 1) as nat);
        let s = (n - 1) as u8;
        assert((((byte & 0x1fu8) >> s) & 1u8 == 1u8) <==> (s < 5 && (byte >> s) & 1u8 == 1u8))
            by (bit_vector)
            requires
                s < 8,
        ;
    }
}

proof fn lemma_contacts_prefix(t: TouchpadTelemetry, protocol: u8, packet: Seq<u8>, n: nat)
    requires
        decodes_touchpad(t, protocol, packet),
        n <= TOUCH_CONTACTS,
    ensures
        active_contacts(t, n) == if protocol >= 2 {
            set_bits_below(packet[16], n)
        } else {
            0
        },
    decreases n,
{
    if n > 0 {
        lemma_contacts_prefix(t, protocol, packet, (n - 1) as nat);
    }
}

/// The number of touching contacts of a decoded touchpad is the number of
/// set bits among bits 0 to 4 of byte 16 (none for protocol 1), so at most
/// five.
pub proof fn lemma_touchpad_count_is_contact_bits(
    t: TouchpadTelemetry,
    protocol: u8,
    packet: Seq<u8>,
)
    requires
        decodes_touchpad(t, protocol, packet),
    ensures
        active_contacts(t, TOUCH_CONTACTS as nat) == if protocol >= 2 {
            set_bits_below(packet[16] & 0x1fu8, 8)
        } else {
            0
        },
        active_contacts(t, TOUCH_CONTACTS as nat) <= TOUCH_CONTACTS,
{
    lemma_contacts_prefix(t, protocol, packet, TOUCH_CONTACTS as nat);
    lemma_low_five_bits(packet[16], 8);
    lemma_set_bits_at_most(packet[16], TOUCH_CONTACTS as nat);
}

} // verus!
