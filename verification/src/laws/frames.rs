//! The bytes of frames: where each thing that a frame says stands in them.
use crate::frame::{crc16, crc_bits, frame_bytes, Frame};
use vstd::prelude::*;

verus! {

/// Where what follows the function code starts.
pub open spec fn data_at(f: Frame) -> int {
    if f.is_tcp {
        8
    } else {
        2
    }
}

/// Where what follows the function code ends: on a serial line, two bytes before the
/// end.
pub open spec fn data_end(f: Frame) -> int {
    if f.is_tcp {
        frame_bytes(f).len() as int
    } else {
        frame_bytes(f).len() - 2
    }
}

/// The number in two bytes, the upper one first.
pub open spec fn number_at(b: Seq<u8>, i: int) -> int {
    b[i] * 256 + b[i + 1] as int
}

/// There are bytes for reading and writing bits and registers, one or many, and for
/// nothing else.
pub proof fn law_bytes_of_known_codes(f: Frame)
    ensures
        frame_bytes(f).len() == 0 <==> !(f.func_code == 1 || f.func_code == 2 || f.func_code == 3
            || f.func_code == 4 || f.func_code == 5 || f.func_code == 6 || f.func_code == 15
            || f.func_code == 16),
{
}

/// A frame starts with the unit and the function code. Over TCP they stand behind a
/// transaction, a protocol and the number of the bytes that follow.
pub proof fn law_frame_starts_with_unit_and_code(f: Frame)
    requires
        frame_bytes(f).len() > 0,
    ensures
        ({
            let b = frame_bytes(f);
            let at = data_at(f);
            &&& b.len() >= at
            &&& b[at - 2] == f.unit
            &&& b[at - 1] == f.func_code
            &&& f.is_tcp ==> number_at(b, 0) == 1 && number_at(b, 2) == 0
            &&& f.is_tcp && b.len() < 262 ==> number_at(b, 4) == b.len() - 6
        }),
{
}

/// An answer with bits says how many bytes follow, eight bits to a byte.
pub proof fn law_bits_are_counted_in_bytes(f: Frame)
    requires
        f.func_code == 1 || f.func_code == 2,
    ensures
        ({
            let b = frame_bytes(f);
            let n = data_end(f) - data_at(f) - 1;
            &&& 8 * n >= f.values.len()
            &&& 8 * (n - 1) < f.values.len()
            &&& n < 256 ==> b[data_at(f)] == n
        }),
{
}

/// An answer with registers says how many bytes follow, two to a register, and has
/// them in order, the upper byte of each first.
pub proof fn law_registers_stand_in_order(f: Frame, i: int)
    requires
        f.func_code == 3 || f.func_code == 4,
        0 <= i < f.values.len(),
    ensures
        ({
            let b = frame_bytes(f);
            &&& data_end(f) - data_at(f) == 1 + 2 * f.values.len()
            &&& f.values.len() < 128 ==> b[data_at(f)] == 2 * f.values.len()
            &&& number_at(b, data_at(f) + 1 + 2 * i) == f.values[i]
        }),
{
    let b = frame_bytes(f);
    let k = data_at(f) + 1 + 2 * i;
    assert((2 * i) / 2 == i && (2 * i) % 2 == 0 && (2 * i + 1) / 2 == i && (2 * i + 1) % 2 == 1);
    assert(b[k] == crate::frame::high_byte(f.values[i]));
    assert(b[k + 1] == crate::frame::low_byte(f.values[i]));
}

/// A frame that writes starts with the address, the upper byte first.
pub proof fn law_address_comes_first(f: Frame)
    requires
        f.func_code == 5 || f.func_code == 6 || f.func_code == 15 || f.func_code == 16,
    ensures
        frame_bytes(f).len() >= data_at(f) + 2,
        number_at(frame_bytes(f), data_at(f)) == f.addr,
{
}

/// A frame that writes one bit has behind the address 255 and 0 for on, and twice 0
/// for off, and nothing else.
pub proof fn law_bit_is_written_on_or_off(f: Frame)
    requires
        f.func_code == 5,
        f.values.len() > 0,
    ensures
        ({
            let b = frame_bytes(f);
            let at = data_at(f);
            &&& data_end(f) == at + 4
            &&& f.values[0] != 0 ==> b[at + 2] == 0xFF && b[at + 3] == 0
            &&& f.values[0] == 0 ==> b[at + 2] == 0 && b[at + 3] == 0
        }),
{
}

/// A frame that writes one register has it behind the address, the upper byte first,
/// and nothing else.
pub proof fn law_register_is_written_whole(f: Frame)
    requires
        f.func_code == 6,
        f.values.len() > 0,
    ensures
        data_end(f) == data_at(f) + 4,
        number_at(frame_bytes(f), data_at(f) + 2) == f.values[0],
{
}

/// A frame that writes many has behind the address how many, and nothing else.
pub proof fn law_many_are_counted(f: Frame)
    requires
        f.func_code == 15 || f.func_code == 16,
    ensures
        data_end(f) == data_at(f) + 4,
        f.values.len() < 65536 ==> number_at(frame_bytes(f), data_at(f) + 2) == f.values.len(),
{
}

/// A frame that writes one, of which nothing is known but the address, ends there.
pub proof fn law_nothing_to_write_is_left_out(f: Frame)
    requires
        f.func_code == 5 || f.func_code == 6,
        f.values.len() == 0,
    ensures
        data_end(f) == data_at(f) + 2,
{
}

/// A frame on a serial line ends with the checksum of all that stands before it, the
/// lower byte first.
pub proof fn law_checksum_comes_last(f: Frame)
    requires
        !f.is_tcp,
        frame_bytes(f).len() > 0,
    ensures
        ({
            let b = frame_bytes(f);
            let n = b.len();
            &&& n >= 4
            &&& b[n - 1] * 256 + b[n - 2] as int == crc16(b.take(n - 2))
        }),
{
    let b = frame_bytes(f);
    assert(b.take(b.len() - 2) =~= seq![f.unit] + crate::frame::pdu(f));
}

/// What a bit that is on adds to the checksum of a byte, by its place.
pub open spec fn added(on: bool, by: u16) -> u16 {
    if on {
        by
    } else {
        0
    }
}

/// The checksum starts with all bits on. A byte is taken into its lower half; then
/// the upper half moves down, and each bit of the lower half that is on adds what
/// belongs to its place.
pub proof fn law_checksum_takes_in_a_byte(s: Seq<u8>, byte: u8)
    ensures
        crc16(Seq::empty()) == 0xFFFF,
        ({
            let x = crc16(s) ^ (byte as u16);
            crc16(s.push(byte)) == (x >> 8) ^ added(x & 1 != 0, 0xC0C1) ^ added(
                x & 2 != 0,
                0xC181,
            ) ^ added(x & 4 != 0, 0xC301) ^ added(x & 8 != 0, 0xC601) ^ added(
                x & 16 != 0,
                0xCC01,
            ) ^ added(x & 32 != 0, 0xD801) ^ added(x & 64 != 0, 0xF001) ^ added(
                x & 128 != 0,
                0xA001,
            )
        }),
{
    assert(s.push(byte).drop_last() =~= s);
    lemma_byte_of_checksum(crc16(s) ^ (byte as u16));
}

proof fn lemma_byte_of_checksum(x: u16)
    ensures
        crc_bits(x, 8) == (x >> 8) ^ added(x & 1 != 0, 0xC0C1) ^ added(x & 2 != 0, 0xC181) ^ added(
            x & 4 != 0,
            0xC301,
        ) ^ added(x & 8 != 0, 0xC601) ^ added(x & 16 != 0, 0xCC01) ^ added(x & 32 != 0, 0xD801)
            ^ added(x & 64 != 0, 0xF001) ^ added(x & 128 != 0, 0xA001),
{
    let c1 = crate::frame::crc_bit(x);
    let c2 = crate::frame::crc_bit(c1);
    let c3 = crate::frame::crc_bit(c2);
    let c4 = crate::frame::crc_bit(c3);
    let c5 = crate::frame::crc_bit(c4);
    let c6 = crate::frame::crc_bit(c5);
    let c7 = crate::frame::crc_bit(c6);
    let c8 = crate::frame::crc_bit(c7);
    assert(crc_bits(x, 8) == c8) by {
        reveal_with_fuel(crc_bits, 9);
    }
    assert(c8 == (x >> 8) ^ added(x & 1 != 0, 0xC0C1) ^ added(x & 2 != 0, 0xC181) ^ added(
        x & 4 != 0,
        0xC301,
    ) ^ added(x & 8 != 0, 0xC601) ^ added(x & 16 != 0, 0xCC01) ^ added(x & 32 != 0, 0xD801)
        ^ added(x & 64 != 0, 0xF001) ^ added(x & 128 != 0, 0xA001)) by (bit_vector)
        requires
            c1 == (if x & 1 != 0 {
                (x >> 1) ^ 0xA001
            } else {
                x >> 1
            }),
            c2 == (if c1 & 1 != 0 {
                (c1 >> 1) ^ 0xA001
            } else {
                c1 >> 1
            }),
            c3 == (if c2 & 1 != 0 {
                (c2 >> 1) ^ 0xA001
            } else {
                c2 >> 1
            }),
            c4 == (if c3 & 1 != 0 {
                (c3 >> 1) ^ 0xA001
            } else {
                c3 >> 1
            }),
            c5 == (if c4 & 1 != 0 {
                (c4 >> 1) ^ 0xA001
            } else {
                c4 >> 1
            }),
            c6 == (if c5 & 1 != 0 {
                (c5 >> 1) ^ 0xA001
            } else {
                c5 >> 1
            }),
            c7 == (if c6 & 1 != 0 {
                (c6 >> 1) ^ 0xA001
            } else {
                c6 >> 1
            }),
            c8 == (if c7 & 1 != 0 {
                (c7 >> 1) ^ 0xA001
            } else {
                c7 >> 1
            }),
    ;
}

} // verus!
