//! Modbus frames: what they say, and their bytes.
use vstd::arithmetic::power2::{lemma2_to64, pow2};
use vstd::prelude::*;

verus! {

/// What a frame says.
#[derive(Debug)]
pub struct FrameInfo {
    pub is_tcp: bool,
    pub unit: u8,
    pub func_code: u8,
    pub func_name: String,
    pub addr: u16,
    pub values: Vec<u16>,
    pub is_request: bool,
}

/// What a frame says, mathematically.
pub struct Frame {
    pub is_tcp: bool,
    pub unit: u8,
    pub func_code: u8,
    pub func_name: Seq<char>,
    pub addr: u16,
    pub values: Seq<u16>,
    pub is_request: bool,
}

impl View for FrameInfo {
    type V = Frame;

    open spec fn view(&self) -> Frame {
        Frame {
            is_tcp: self.is_tcp,
            unit: self.unit,
            func_code: self.func_code,
            func_name: self.func_name@,
            addr: self.addr,
            values: self.values@,
            is_request: self.is_request,
        }
    }
}

/// A copy of a list of registers.
pub fn copy_words(v: &Vec<u16>) -> (r: Vec<u16>)
    ensures
        r@ == v@,
{
    let mut r: Vec<u16> = Vec::new();
    let n: usize = v.len();
    for i in 0..n
        invariant
            n == v@.len(),
            r@ == v@.take(i as int),
    {
        r.push(v[i]);
    }
    r
}

impl Clone for FrameInfo {
    fn clone(&self) -> (r: FrameInfo)
        ensures
            r@ == self@,
    {
        FrameInfo {
            is_tcp: self.is_tcp,
            unit: self.unit,
            func_code: self.func_code,
            func_name: self.func_name.clone(),
            addr: self.addr,
            values: copy_words(&self.values),
            is_request: self.is_request,
        }
    }
}

impl Default for FrameInfo {
    fn default() -> (r: FrameInfo)
        ensures
            r@ == (Frame {
                is_tcp: false,
                unit: 0,
                func_code: 0,
                func_name: Seq::empty(),
                addr: 0,
                values: Seq::empty(),
                is_request: false,
            }),
    {
        FrameInfo {
            is_tcp: false,
            unit: 0,
            func_code: 0,
            func_name: String::new(),
            addr: 0,
            values: Vec::new(),
            is_request: false,
        }
    }
}

/// One bit of the checksum: the register moves down, and the polynomial is
/// taken in where a one falls out.
pub open spec fn crc_bit(c: u16) -> u16 {
    if c & 1 != 0 {
        (c >> 1) ^ 0xA001
    } else {
        c >> 1
    }
}

/// `n` bits of the checksum.
pub open spec fn crc_bits(c: u16, n: nat) -> u16
    decreases n,
{
    if n == 0 {
        c
    } else {
        crc_bit(crc_bits(c, (n - 1) as nat))
    }
}

/// The Modbus checksum of bytes.
pub open spec fn crc16(bytes: Seq<u8>) -> u16
    decreases bytes.len(),
{
    if bytes.len() == 0 {
        0xFFFF
    } else {
        crc_bits(crc16(bytes.drop_last()) ^ (bytes.last() as u16), 8)
    }
}

/// The Modbus checksum of bytes.
pub fn calc_crc16(data: &Vec<u8>) -> (r: u16)
    ensures
        r == crc16(data@),
{
    let n: usize = data.len();
    let mut crc: u16 = 0xFFFF;
    assert(data@.take(0) =~= Seq::<u8>::empty());
    for i in 0..n
        invariant
            n == data@.len(),
            crc == crc16(data@.take(i as int)),
    {
        assert(data@.take(i + 1).drop_last() =~= data@.take(i as int));
        let start: u16 = crc ^ (data[i] as u16);
        crc = start;
        for k in 0..8u32
            invariant
                crc == crc_bits(start, k as nat),
        {
            if crc & 1 != 0 {
                crc = (crc >> 1) ^ 0xA001;
            } else {
                crc = crc >> 1;
            }
        }
    }
    assert(data@.take(n as int) =~= data@);
    crc
}

/// The upper byte of a register.
pub open spec fn high_byte(w: u16) -> u8 {
    (w / 256) as u8
}

/// The lower byte of a register.
pub open spec fn low_byte(w: u16) -> u8 {
    (w % 256) as u8
}

/// A frame's bytes checked by their checksum: with its lower byte first behind
/// them.
pub open spec fn with_crc(body: Seq<u8>) -> Seq<u8> {
    body.push(low_byte(crc16(body))).push(high_byte(crc16(body)))
}

proof fn lemma_shifts(x: u16)
    requires
        x & 0xFF == 0,
    ensures
        crc_bits(x, 8) == x >> 8,
{
    assert(x & 1 == 0 && (x >> 1) & 1 == 0 && (x >> 2) & 1 == 0 && (x >> 3) & 1 == 0 && (x >> 4) & 1
        == 0 && (x >> 5) & 1 == 0 && (x >> 6) & 1 == 0 && (x >> 7) & 1 == 0) by (bit_vector)
        requires
            x & 0xFF == 0,
    ;
    assert((x >> 1) >> 1 == x >> 2 && (x >> 2) >> 1 == x >> 3 && (x >> 3) >> 1 == x >> 4 && (x
        >> 4) >> 1 == x >> 5 && (x >> 5) >> 1 == x >> 6 && (x >> 6) >> 1 == x >> 7 && (x >> 7) >> 1
        == x >> 8) by (bit_vector);
    reveal_with_fuel(crc_bits, 9);
}

/// Bytes followed by their checksum have the checksum zero, whatever the bytes
/// are: this is how a receiver finds a damaged frame.
pub proof fn law_checksum_residue(body: Seq<u8>)
    ensures
        crc16(with_crc(body)) == 0,
{
    let c = crc16(body);
    let lo = low_byte(c);
    let hi = high_byte(c);
    let one = body.push(lo);
    let two = one.push(hi);
    assert(one.drop_last() =~= body);
    assert(two.drop_last() =~= one);
    let x = c ^ (lo as u16);
    let m = c % 256u16;
    let d = c / 256u16;
    assert(m == c & 0xFFu16) by (bit_vector)
        requires
            m == c % 256u16,
    ;
    assert(d == c >> 8u16) by (bit_vector)
        requires
            d == c / 256u16,
    ;
    assert(x & 0xFFu16 == 0u16 && x >> 8u16 == d) by (bit_vector)
        requires
            x == c ^ m,
            m == c & 0xFFu16,
            d == c >> 8u16,
    ;
    lemma_shifts(x);
    assert(crc16(one) == crc_bits(x, 8));
    assert(crc16(one) ^ (hi as u16) == d ^ d);
    assert(d ^ d == 0) by (bit_vector);
    assert(0u16 & 0xFF == 0) by (bit_vector);
    assert(0u16 >> 8 == 0) by (bit_vector);
    lemma_shifts(0);
    assert(crc16(two) == crc_bits(0, 8));
}

/// The number that up to eight on-off values make, the first being the lowest
/// bit.
pub open spec fn bits_number(values: Seq<u16>, from: int, n: nat) -> nat
    decreases n,
{
    if n == 0 {
        0
    } else {
        bits_number(values, from, (n - 1) as nat) + (if from + n - 1 < values.len() && values[from
            + n - 1] != 0 {
            pow2((n - 1) as nat)
        } else {
            0
        })
    }
}

/// How many bytes a number of bits takes.
pub open spec fn bytes_for(bits: nat) -> nat {
    (bits + 7) / 8
}

/// On-off values packed into bytes, eight to a byte.
pub open spec fn packed(values: Seq<u16>) -> Seq<u8> {
    Seq::new(bytes_for(values.len()), |j: int| bits_number(values, 8 * j, 8) as u8)
}

/// Registers as bytes, the upper byte of each first.
pub open spec fn register_bytes(values: Seq<u16>) -> Seq<u8> {
    Seq::new(
        2 * values.len(),
        |j: int|
            if j % 2 == 0 {
                high_byte(values[j / 2])
            } else {
                low_byte(values[j / 2])
            },
    )
}

/// What a frame carries between its address and its checksum: the function
/// code and its data. Codes that are not shown carry nothing.
pub open spec fn pdu(f: Frame) -> Seq<u8> {
    let fc = f.func_code;
    let n = f.values.len();
    if fc == 1 || fc == 2 {
        seq![fc, (bytes_for(n) % 256) as u8] + packed(f.values)
    } else if fc == 3 || fc == 4 {
        seq![fc, ((2 * n) % 256) as u8] + register_bytes(f.values)
    } else if fc == 5 {
        seq![fc, high_byte(f.addr), low_byte(f.addr)] + (if n == 0 {
            Seq::empty()
        } else if f.values[0] != 0 {
            seq![0xFFu8, 0u8]
        } else {
            seq![0u8, 0u8]
        })
    } else if fc == 6 {
        seq![fc, high_byte(f.addr), low_byte(f.addr)] + (if n == 0 {
            Seq::empty()
        } else {
            seq![high_byte(f.values[0]), low_byte(f.values[0])]
        })
    } else {
        seq![
            fc,
            high_byte(f.addr),
            low_byte(f.addr),
            high_byte((n % 65536) as u16),
            low_byte((n % 65536) as u16),
        ]
    }
}

/// Whether the bytes of a frame with a function code are known.
pub open spec fn known_code(fc: u8) -> bool {
    1 <= fc <= 6 || fc == 0x0F || fc == 0x10
}

/// The bytes of a frame.
pub open spec fn frame_bytes(f: Frame) -> Seq<u8> {
    if !known_code(f.func_code) {
        Seq::empty()
    } else if f.is_tcp {
        seq![0u8, 1u8, 0u8, 0u8, 0u8, ((pdu(f).len() + 1) % 256) as u8, f.unit] + pdu(f)
    } else {
        with_crc(seq![f.unit] + pdu(f))
    }
}

/// Whether the length that a frame over TCP tells of what it carries, cut to a
/// byte, has room for the unit identifier.
pub open spec fn length_fits(f: Frame) -> bool {
    known_code(f.func_code) && f.is_tcp ==> pdu(f).len() % 256 != 255
}

/// The bytes of two lists, one behind the other.
fn append_bytes(out: &mut Vec<u8>, tail: &Vec<u8>)
    ensures
        final(out)@ == old(out)@ + tail@,
{
    let n: usize = tail.len();
    for i in 0..n
        invariant
            n == tail@.len(),
            out@ == old(out)@ + tail@.take(i as int),
    {
        out.push(tail[i]);
    }
    assert(tail@.take(n as int) =~= tail@);
}

fn push_word(out: &mut Vec<u8>, w: u16)
    ensures
        final(out)@ == old(out)@.push(high_byte(w)).push(low_byte(w)),
{
    out.push((w / 256) as u8);
    out.push((w % 256) as u8);
}

/// The byte that eight on-off values from a place on make.
fn pack_byte(values: &Vec<u16>, from: usize) -> (r: u8)
    requires
        from < values@.len(),
    ensures
        r == bits_number(values@, from as int, 8) as u8,
{
    let n: usize = values.len();
    let mut acc: u16 = 0;
    let mut p: u16 = 1;
    proof {
        lemma2_to64();
    }
    for k in 0..8usize
        invariant
            n == values@.len(),
            from < n,
            p == pow2(k as nat),
            p <= 256,
            acc < p,
            acc == bits_number(values@, from as int, k as nat),
    {
        proof {
            lemma2_to64();
            vstd::arithmetic::power2::lemma_pow2_unfold((k + 1) as nat);
        }
        if k < n - from && values[from + k] != 0 {
            acc = acc + p;
        }
        p = p * 2;
    }
    acc as u8
}

/// The function code and the data that a frame carries.
fn pdu_bytes(fi: &FrameInfo) -> (r: Vec<u8>)
    requires
        known_code(fi.func_code),
    ensures
        r@ == pdu(fi@),
{
    let mut raw: Vec<u8> = Vec::new();
    let n: usize = fi.values.len();
    raw.push(fi.func_code);
    if fi.func_code == 1 || fi.func_code == 2 {
        let count: usize = n / 8 + (if n % 8 == 0 {
            0usize
        } else {
            1usize
        });
        assert(count == bytes_for(n as nat));
        raw.push((count % 256) as u8);
        let ghost head = raw@;
        let mut j: usize = 0;
        while j < count
            invariant
                j <= count == bytes_for(n as nat),
                n == fi.values.len(),
                raw@ == head + packed(fi.values@).take(j as int),
            decreases count - j,
        {
            assert(8 * j < n);
            raw.push(pack_byte(&fi.values, 8 * j));
            assert(packed(fi.values@).take(j + 1) =~= packed(fi.values@).take(j as int).push(
                packed(fi.values@)[j as int],
            ));
            j += 1;
        }
        assert(packed(fi.values@).take(count as int) =~= packed(fi.values@));
        assert(raw@ =~= pdu(fi@));
    } else if fi.func_code == 3 || fi.func_code == 4 {
        raw.push((n % 128 * 2) as u8);
        let ghost head = raw@;
        for i in 0..n
            invariant
                n == fi.values@.len(),
                raw@ == head + register_bytes(fi.values@).take(2 * i),
        {
            push_word(&mut raw, fi.values[i]);
            let ghost all = register_bytes(fi.values@);
            assert(all.take(2 * (i + 1)) =~= all.take(2 * i).push(all[2 * i]).push(all[2 * i + 1]));
        }
        assert(register_bytes(fi.values@).take(2 * n) =~= register_bytes(fi.values@));
        assert(raw@ =~= pdu(fi@));
    } else if fi.func_code == 5 {
        push_word(&mut raw, fi.addr);
        if n > 0 {
            if fi.values[0] != 0 {
                raw.push(0xFF);
            } else {
                raw.push(0);
            }
            raw.push(0);
        }
        assert(raw@ =~= pdu(fi@));
    } else if fi.func_code == 6 {
        push_word(&mut raw, fi.addr);
        if n > 0 {
            push_word(&mut raw, fi.values[0]);
        }
        assert(raw@ =~= pdu(fi@));
    } else {
        push_word(&mut raw, fi.addr);
        push_word(&mut raw, (n % 65536) as u16);
        assert(raw@ =~= pdu(fi@));
    }
    raw
}

/// Whether the length that a frame over TCP tells has room for the unit
/// identifier.
pub fn frame_fits(fi: &FrameInfo) -> (r: bool)
    ensures
        r == length_fits(fi@),
{
    let fc: u8 = fi.func_code;
    if !fi.is_tcp || !((1 <= fc && fc <= 6) || fc == 0x0F || fc == 0x10) {
        return true;
    }
    pdu_bytes(fi).len() % 256 != 255
}

/// The bytes of the frame that says what is given, to be shown; none where the
/// function code is not one of the eight known.
pub fn frame_bytes_from_info(fi: &FrameInfo) -> (r: Vec<u8>)
    requires
        length_fits(fi@),
    ensures
        r@ == frame_bytes(fi@),
{
    let fc: u8 = fi.func_code;
    let mut bytes: Vec<u8> = Vec::new();
    if !((1 <= fc && fc <= 6) || fc == 0x0F || fc == 0x10) {
        return bytes;
    }
    let raw: Vec<u8> = pdu_bytes(fi);
    if fi.is_tcp {
        bytes.push(0);
        bytes.push(1);
        bytes.push(0);
        bytes.push(0);
        bytes.push(0);
        bytes.push((raw.len() % 256) as u8 + 1);
        bytes.push(fi.unit);
        append_bytes(&mut bytes, &raw);
        assert(bytes@ =~= frame_bytes(fi@));
    } else {
        bytes.push(fi.unit);
        append_bytes(&mut bytes, &raw);
        assert(bytes@ =~= seq![fi.unit] + pdu(fi@));
        let crc: u16 = calc_crc16(&bytes);
        bytes.push((crc % 256) as u8);
        bytes.push((crc / 256) as u8);
    }
    bytes
}

/// Whether bit `k` of a number is set.
pub open spec fn bit_set(n: nat, k: nat) -> bool {
    (n / pow2(k)) % 2 == 1
}

proof fn lemma_bits(values: Seq<u16>, from: int, n: nat, k: nat)
    requires
        0 <= from,
        k < n,
    ensures
        bits_number(values, from, n) < pow2(n),
        bit_set(bits_number(values, from, n), k) == (from + k < values.len() && values[from + k]
            != 0),
    decreases n,
{
    let m = (n - 1) as nat;
    let a = bits_number(values, from, m);
    let on = from + m < values.len() && values[from + m] != 0;
    vstd::arithmetic::power2::lemma_pow2_unfold(n);
    lemma_bits_bound(values, from, m);
    let p = pow2(m);
    if k == m {
        if on {
            vstd::arithmetic::div_mod::lemma_fundamental_div_mod_converse(
                (a + p) as int,
                p as int,
                1,
                a as int,
            );
        } else {
            vstd::arithmetic::div_mod::lemma_basic_div(a as int, p as int);
        }
    } else {
        lemma_bits(values, from, m, k);
        if on {
            let q = pow2(k);
            let t = pow2((m - k) as nat);
            vstd::arithmetic::power2::lemma_pow2_adds(k, (m - k) as nat);
            vstd::arithmetic::power2::lemma_pow2_unfold((m - k) as nat);
            vstd::arithmetic::power2::lemma_pow2_pos(k);
            vstd::arithmetic::div_mod::lemma_hoist_over_denominator(a as int, t as int, q);
            assert(t * q == q * t) by (nonlinear_arith);
            assert((a + p) / q == a / q + t);
            let u = pow2((m - k - 1) as nat);
            assert(t == 2 * u);
            assert((a / q + 2 * u) % 2 == (a / q) % 2);
        }
    }
}

proof fn lemma_bits_bound(values: Seq<u16>, from: int, n: nat)
    requires
        0 <= from,
    ensures
        bits_number(values, from, n) < pow2(n),
    decreases n,
{
    if n == 0 {
        lemma2_to64();
    } else {
        lemma_bits_bound(values, from, (n - 1) as nat);
        vstd::arithmetic::power2::lemma_pow2_unfold(n);
    }
}

/// Each on-off value is found again in the packed bytes: its bit is set if and
/// only if the value is on, and the bits behind the last value are not set.
pub proof fn law_packed_bits(values: Seq<u16>, i: int)
    requires
        0 <= i < 8 * bytes_for(values.len()),
    ensures
        0 <= i / 8 < packed(values).len(),
        bit_set(packed(values)[i / 8] as nat, (i % 8) as nat) == (i < values.len() && values[i]
            != 0),
{
    lemma2_to64();
    lemma_bits(values, 8 * (i / 8), 8, (i % 8) as nat);
}

/// A frame over a serial line is checked by its checksum.
pub proof fn law_rtu_frame_is_checked(f: Frame)
    requires
        !f.is_tcp,
        known_code(f.func_code),
    ensures
        crc16(frame_bytes(f)) == 0,
        frame_bytes(f).len() == pdu(f).len() + 3,
        frame_bytes(f)[0] == f.unit,
        frame_bytes(f)[1] == f.func_code,
{
    law_checksum_residue(seq![f.unit] + pdu(f));
}

/// A frame over TCP tells how many bytes follow its length, if they are fewer
/// than 256.
pub proof fn law_tcp_frame_tells_length(f: Frame)
    requires
        f.is_tcp,
        known_code(f.func_code),
        pdu(f).len() + 1 < 256,
    ensures
        frame_bytes(f)[4] as int * 256 + frame_bytes(f)[5] as int == frame_bytes(f).len() - 6,
        frame_bytes(f)[6] == f.unit,
        frame_bytes(f)[7] == f.func_code,
{
}

/// Each register that was read is found again in the frame, its upper byte
/// first.
pub proof fn law_frame_carries_registers(f: Frame, i: int)
    requires
        f.func_code == 3 || f.func_code == 4,
        0 <= i < f.values.len(),
    ensures
        ({
            let start: int = if f.is_tcp {
                9
            } else {
                3
            };
            &&& frame_bytes(f)[start + 2 * i] as int * 256 + frame_bytes(f)[start + 2 * i + 1]
                == f.values[i]
        }),
{
    let start: int = if f.is_tcp {
        9
    } else {
        3
    };
    assert(frame_bytes(f)[start + 2 * i] == pdu(f)[2 + 2 * i]);
    assert(frame_bytes(f)[start + 2 * i + 1] == pdu(f)[2 + 2 * i + 1]);
    assert(pdu(f)[2 + 2 * i] == register_bytes(f.values)[2 * i]);
    assert(pdu(f)[2 + 2 * i + 1] == register_bytes(f.values)[2 * i + 1]);
}

/// Each on-off value that was read is found again in the frame.
pub proof fn law_frame_carries_bits(f: Frame, i: int)
    requires
        f.func_code == 1 || f.func_code == 2,
        0 <= i < f.values.len(),
    ensures
        ({
            let start: int = if f.is_tcp {
                9
            } else {
                3
            };
            bit_set(frame_bytes(f)[start + i / 8] as nat, (i % 8) as nat) == (f.values[i] != 0)
        }),
{
    law_packed_bits(f.values, i);
    let start: int = if f.is_tcp {
        9
    } else {
        3
    };
    assert(frame_bytes(f)[start + i / 8] == pdu(f)[2 + i / 8]);
    assert(pdu(f)[2 + i / 8] == packed(f.values)[i / 8]);
}

} // verus!
