//! Frames and monitors as texts for the screen.
use crate::frame::{calc_crc16, copy_words, frame_bytes_from_info, Frame, FrameInfo};
use crate::listing::{rank_addresses, rank_codes};
use crate::message::{message, message1, message2, note, note1, note2, text, Draft, Part, Piece};
use crate::monitor::{FrameRecord, MonitorStats, Record};
use crate::numeral::{decimal_text, push_decimal, push_padded};
use vstd::prelude::*;

verus! {

/// A number as two hexadecimal digits, or more where it needs them.
pub open spec fn hex2(n: nat) -> Seq<char> {
    crate::numeral::padded(n, 16, 2)
}

/// A number as four hexadecimal digits, or more where it needs them.
pub open spec fn hex4(n: nat) -> Seq<char> {
    crate::numeral::padded(n, 16, 4)
}

/// The number that two bytes make, the upper one first.
pub open spec fn pair(hi: u8, lo: u8) -> nat {
    hi as nat * 256 + lo as nat
}

/// A line that says what stands somewhere in a frame.
pub open spec fn row(head: Seq<char>, what: Part) -> Seq<Part> {
    seq![text(head), what, text("\n"@)]
}

/// The start of a line on two bytes of a frame.
pub open spec fn place2(from: nat, n: nat) -> Seq<char> {
    crate::numeral::decimal(from) + "-"@ + crate::numeral::decimal(from + 1) + " "@ + hex4(n)
        + "  "@
}

/// The lines on the head of a frame over TCP.
pub open spec fn tcp_head(b: Seq<u8>, name: Seq<char>) -> Seq<Part> {
    let id = pair(b[0], b[1]);
    let protocol = pair(b[2], b[3]);
    let len = pair(b[4], b[5]);
    row(
        "0-1   "@ + hex4(id) + "  "@,
        note1("byte_panel.transaction_id"@, "id"@, crate::numeral::decimal(id)),
    ) + row(
        "2-3   "@ + hex4(protocol) + "  "@,
        if protocol == 0 {
            note("byte_panel.protocol_id_modbus"@)
        } else {
            note("byte_panel.protocol_id_other"@)
        },
    ) + row(
        "4-5   "@ + hex4(len) + "  "@,
        note1("byte_panel.length"@, "len"@, crate::numeral::decimal(len)),
    ) + row(
        "6     "@ + hex2(b[6] as nat) + "    "@,
        note1("byte_panel.unit"@, "unit"@, crate::numeral::decimal(b[6] as nat)),
    ) + row(
        "7     "@ + hex2(b[7] as nat) + "    "@,
        note2(
            "byte_panel.func_code"@,
            "name"@,
            name,
            "code"@,
            crate::numeral::decimal(b[7] as nat),
        ),
    )
}

/// The lines on the head of a frame over a serial line.
pub open spec fn rtu_head(b: Seq<u8>, name: Seq<char>) -> Seq<Part> {
    row(
        "0     "@ + hex2(b[0] as nat) + "    "@,
        note1("byte_panel.unit"@, "unit"@, crate::numeral::decimal(b[0] as nat)),
    ) + row(
        "1     "@ + hex2(b[1] as nat) + "    "@,
        note2(
            "byte_panel.func_code"@,
            "name"@,
            name,
            "code"@,
            crate::numeral::decimal(b[1] as nat),
        ),
    )
}

/// How many registers of an answer are shown: those that end before its last two
/// bytes.
pub open spec fn shown_registers(body: nat, values: nat) -> nat {
    let fit = if body >= 5 {
        (body - 3) / 2
    } else {
        0
    };
    if fit < values {
        fit as nat
    } else {
        values
    }
}

/// The lines on the first `k` registers of an answer.
pub open spec fn register_rows(body: Seq<u8>, base: nat, k: nat) -> Seq<Part>
    decreases k,
{
    if k == 0 {
        Seq::empty()
    } else {
        let i = (k - 1) as nat;
        let v = pair(body[1 + 2 * i as int], body[2 + 2 * i as int]);
        register_rows(body, base, i) + row(
            place2(base + 1 + 2 * i, v),
            note2(
                "byte_panel.register"@,
                "idx"@,
                crate::numeral::decimal(i),
                "val"@,
                crate::numeral::decimal(v),
            ),
        )
    }
}

/// The line on the last two bytes of a frame, read as a checksum.
pub open spec fn crc_row(body: Seq<u8>, base: nat) -> Seq<Part> {
    let start = (body.len() - 2) as nat;
    let crc = pair(body[start as int + 1], body[start as int]);
    row(
        place2(base + start, crc),
        note1("byte_panel.crc16"@, "crc"@, crate::numeral::decimal(crc)),
    )
}

/// The lines on an answer that repeats two numbers.
pub open spec fn two_numbers(
    body: Seq<u8>,
    base: nat,
    is_tcp: bool,
    key1: Seq<char>,
    name1: Seq<char>,
    key2: Seq<char>,
    name2: Seq<char>,
) -> Seq<Part> {
    if body.len() < 4 {
        Seq::empty()
    } else {
        let a = pair(body[0], body[1]);
        let b = pair(body[2], body[3]);
        row(place2(base, a), note1(key1, name1, crate::numeral::decimal(a))) + row(
            place2(base + 2, b),
            note1(key2, name2, crate::numeral::decimal(b)),
        ) + (if !is_tcp && body.len() >= 6 {
            crc_row(body, base)
        } else {
            Seq::empty()
        })
    }
}

/// The lines on what follows the head of a frame.
pub open spec fn body_rows(f: Frame, body: Seq<u8>) -> Seq<Part> {
    let base: nat = if f.is_tcp {
        8
    } else {
        2
    };
    if body.len() < 2 {
        Seq::empty()
    } else if f.func_code == 3 {
        row(
            (if f.is_tcp {
                "8    "@
            } else {
                "2    "@
            }) + " "@ + hex2(body[0] as nat) + "    "@,
            note1("byte_panel.byte_count"@, "count"@, crate::numeral::decimal(body[0] as nat)),
        ) + register_rows(body, base, shown_registers(body.len(), f.values.len())) + crc_row(
            body,
            base,
        )
    } else if f.func_code == 6 {
        two_numbers(
            body,
            base,
            f.is_tcp,
            "byte_panel.register_addr"@,
            "addr"@,
            "byte_panel.register_val"@,
            "val"@,
        )
    } else if f.func_code == 0x10 {
        two_numbers(
            body,
            base,
            f.is_tcp,
            "byte_panel.start_addr"@,
            "addr"@,
            "byte_panel.register_qty"@,
            "qty"@,
        )
    } else {
        Seq::empty()
    }
}

/// Bytes in hexadecimal with blanks between them.
pub open spec fn hex_bytes(b: Seq<u8>) -> Seq<char>
    decreases b.len(),
{
    if b.len() == 0 {
        Seq::empty()
    } else if b.len() == 1 {
        hex2(b[0] as nat)
    } else {
        hex_bytes(b.drop_last()) + " "@ + hex2(b.last() as nat)
    }
}

/// The bytes of a frame in lines of eight, from a place on.
pub open spec fn raw_rows(b: Seq<u8>, from: int) -> Seq<Part>
    decreases b.len() - from,
{
    if from >= b.len() {
        Seq::empty()
    } else {
        let to = if from + 8 < b.len() {
            from + 8
        } else {
            b.len() as int
        };
        seq![text("  "@ + hex_bytes(b.subrange(from, to)) + "\n"@)] + raw_rows(b, to)
    }
}

/// The lines with which the panel on a frame starts.
pub open spec fn panel_start(f: Frame) -> Seq<Part> {
    seq![
        if f.is_tcp {
            note1("byte_panel.tcp_response"@, "func"@, f.func_name)
        } else {
            note1("byte_panel.rtu_response"@, "func"@, f.func_name)
        },
        text("\n"@),
        text("━━━━━━━━━━━━━━━━━\n"@),
        note("byte_panel.header"@),
        text("\n"@),
    ]
}

/// The lines on what the bytes of a frame mean.
pub open spec fn panel_middle(f: Frame, b: Seq<u8>) -> Seq<Part> {
    if f.is_tcp {
        tcp_head(b, f.func_name) + body_rows(f, b.skip(8))
    } else {
        rtu_head(b, f.func_name) + body_rows(f, b.skip(2))
    }
}

/// The lines with the bytes of a frame.
pub open spec fn panel_end(b: Seq<u8>) -> Seq<Part> {
    seq![text("━━━━━━━━━━━━━━━━━\n"@), note("byte_panel.raw_frame"@), text("\n"@)] + raw_rows(b, 0)
}

/// The panel on a frame: what its bytes mean, and the bytes.
pub open spec fn byte_panel(f: Frame) -> Seq<Part> {
    let b = crate::frame::frame_bytes(f);
    if b.len() == 0 {
        seq![note("byte_panel.build_fail"@)]
    } else {
        panel_start(f) + panel_middle(f, b) + panel_end(b)
    }
}

fn push_row(d: &mut Draft, head: &str, what: Piece)
    ensures
        final(d)@ == old(d)@ + row(head@, what@),
{
    d.text(head);
    d.put(what);
    d.text("\n");
    assert(d@ =~= old(d)@ + row(head@, what@));
}

fn pair_of(hi: u8, lo: u8) -> (r: u16)
    ensures
        r == pair(hi, lo),
{
    hi as u16 * 256 + lo as u16
}

fn head4(start: &str, n: u16) -> (r: String)
    ensures
        r@ == start@ + hex4(n as nat) + "  "@,
{
    let mut s = start.to_string();
    push_padded(&mut s, n as u128, 16, 4);
    s.append("  ");
    s
}

fn head2(start: &str, n: u8) -> (r: String)
    ensures
        r@ == start@ + hex2(n as nat) + "    "@,
{
    let mut s = start.to_string();
    push_padded(&mut s, n as u128, 16, 2);
    s.append("    ");
    s
}

fn place_text(from: u128, n: u16) -> (r: String)
    requires
        from < u128::MAX,
    ensures
        r@ == place2(from as nat, n as nat),
{
    let mut s = String::new();
    push_decimal(&mut s, from);
    s.append("-");
    push_decimal(&mut s, from + 1);
    s.append(" ");
    push_padded(&mut s, n as u128, 16, 4);
    s.append("  ");
    assert(s@ =~= place2(from as nat, n as nat));
    s
}

fn push_tcp_head(d: &mut Draft, b: &Vec<u8>, name: &String)
    requires
        b@.len() >= 8,
    ensures
        final(d)@ == old(d)@ + tcp_head(b@, name@),
{
    let id: u16 = pair_of(b[0], b[1]);
    let protocol: u16 = pair_of(b[2], b[3]);
    let len: u16 = pair_of(b[4], b[5]);
    push_row(
        d,
        head4("0-1   ", id).as_str(),
        message1("byte_panel.transaction_id", "id", decimal_text(id as u128)),
    );
    push_row(
        d,
        head4("2-3   ", protocol).as_str(),
        if protocol == 0 {
            message("byte_panel.protocol_id_modbus")
        } else {
            message("byte_panel.protocol_id_other")
        },
    );
    push_row(
        d,
        head4("4-5   ", len).as_str(),
        message1("byte_panel.length", "len", decimal_text(len as u128)),
    );
    push_row(
        d,
        head2("6     ", b[6]).as_str(),
        message1("byte_panel.unit", "unit", decimal_text(b[6] as u128)),
    );
    push_row(
        d,
        head2("7     ", b[7]).as_str(),
        message2("byte_panel.func_code", "name", name.clone(), "code", decimal_text(b[7] as u128)),
    );
    assert(d@ =~= old(d)@ + tcp_head(b@, name@));
}

fn push_rtu_head(d: &mut Draft, b: &Vec<u8>, name: &String)
    requires
        b@.len() >= 2,
    ensures
        final(d)@ == old(d)@ + rtu_head(b@, name@),
{
    push_row(
        d,
        head2("0     ", b[0]).as_str(),
        message1("byte_panel.unit", "unit", decimal_text(b[0] as u128)),
    );
    push_row(
        d,
        head2("1     ", b[1]).as_str(),
        message2("byte_panel.func_code", "name", name.clone(), "code", decimal_text(b[1] as u128)),
    );
    assert(d@ =~= old(d)@ + rtu_head(b@, name@));
}

fn push_crc_row(d: &mut Draft, body: &Vec<u8>, base: u128)
    requires
        body@.len() >= 2,
        base <= 8,
    ensures
        final(d)@ == old(d)@ + crc_row(body@, base as nat),
{
    let start: usize = body.len() - 2;
    let crc: u16 = pair_of(body[start + 1], body[start]);
    push_row(
        d,
        place_text(base + start as u128, crc).as_str(),
        message1("byte_panel.crc16", "crc", decimal_text(crc as u128)),
    );
}

fn push_two_numbers(
    d: &mut Draft,
    body: &Vec<u8>,
    base: u128,
    is_tcp: bool,
    key1: &'static str,
    name1: &'static str,
    key2: &'static str,
    name2: &'static str,
)
    requires
        base <= 8,
    ensures
        final(d)@ == old(d)@ + two_numbers(
            body@,
            base as nat,
            is_tcp,
            key1@,
            name1@,
            key2@,
            name2@,
        ),
{
    if body.len() >= 4 {
        let a: u16 = pair_of(body[0], body[1]);
        let b: u16 = pair_of(body[2], body[3]);
        push_row(
            d,
            place_text(base, a).as_str(),
            message1(key1, name1, decimal_text(a as u128)),
        );
        push_row(
            d,
            place_text(base + 2, b).as_str(),
            message1(key2, name2, decimal_text(b as u128)),
        );
        if !is_tcp && body.len() >= 6 {
            push_crc_row(d, body, base);
        }
    }
    assert(d@ =~= old(d)@ + two_numbers(
        body@,
        base as nat,
        is_tcp,
        key1@,
        name1@,
        key2@,
        name2@,
    ));
}

fn push_register_rows(d: &mut Draft, body: &Vec<u8>, base: u128, values: usize)
    requires
        base <= 8,
    ensures
        final(d)@ == old(d)@ + register_rows(
            body@,
            base as nat,
            shown_registers(body@.len(), values as nat),
        ),
{
    let n: usize = body.len();
    let fit: usize = if n >= 5 {
        (n - 3) / 2
    } else {
        0
    };
    let k: usize = if fit < values {
        fit
    } else {
        values
    };
    assert(register_rows(body@, base as nat, 0) =~= Seq::<Part>::empty());
    assert(d@ =~= old(d)@ + register_rows(body@, base as nat, 0));
    for i in 0..k
        invariant
            n == body@.len(),
            base <= 8,
            k > 0 ==> 2 * k + 3 <= n,
            d@ == old(d)@ + register_rows(body@, base as nat, i as nat),
    {
        let v: u16 = pair_of(body[1 + 2 * i], body[2 + 2 * i]);
        push_row(
            d,
            place_text(base + 1 + 2 * i as u128, v).as_str(),
            message2(
                "byte_panel.register",
                "idx",
                decimal_text(i as u128),
                "val",
                decimal_text(v as u128),
            ),
        );
        assert(d@ =~= old(d)@ + register_rows(body@, base as nat, (i + 1) as nat));
    }
}

fn push_body_rows(d: &mut Draft, fi: &FrameInfo, body: &Vec<u8>)
    ensures
        final(d)@ == old(d)@ + body_rows(fi@, body@),
{
    let base: u128 = if fi.is_tcp {
        8
    } else {
        2
    };
    if body.len() >= 2 {
        if fi.func_code == 3 {
            let mut head = if fi.is_tcp {
                "8    ".to_string()
            } else {
                "2    ".to_string()
            };
            head.append(" ");
            push_row(
                d,
                head2(head.as_str(), body[0]).as_str(),
                message1("byte_panel.byte_count", "count", decimal_text(body[0] as u128)),
            );
            push_register_rows(d, body, base, fi.values.len());
            push_crc_row(d, body, base);
        } else if fi.func_code == 6 {
            push_two_numbers(
                d,
                body,
                base,
                fi.is_tcp,
                "byte_panel.register_addr",
                "addr",
                "byte_panel.register_val",
                "val",
            );
        } else if fi.func_code == 0x10 {
            push_two_numbers(
                d,
                body,
                base,
                fi.is_tcp,
                "byte_panel.start_addr",
                "addr",
                "byte_panel.register_qty",
                "qty",
            );
        }
    }
    assert(d@ =~= old(d)@ + body_rows(fi@, body@));
}

fn hex_text(b: &Vec<u8>, from: usize, to: usize) -> (r: String)
    requires
        from < to <= b@.len(),
    ensures
        r@ == hex_bytes(b@.subrange(from as int, to as int)),
{
    let mut s = String::new();
    push_padded(&mut s, b[from] as u128, 16, 2);
    let mut i: usize = from + 1;
    assert(b@.subrange(from as int, from + 1) =~= seq![b@[from as int]]);
    assert(s@ =~= hex2(b@[from as int] as nat));
    while i < to
        invariant
            from < i <= to <= b@.len(),
            s@ == hex_bytes(b@.subrange(from as int, i as int)),
        decreases to - i,
    {
        let ghost t = b@.subrange(from as int, i + 1);
        assert(t.drop_last() =~= b@.subrange(from as int, i as int));
        s.append(" ");
        push_padded(&mut s, b[i] as u128, 16, 2);
        i += 1;
    }
    s
}

fn push_raw_rows(d: &mut Draft, b: &Vec<u8>)
    ensures
        final(d)@ == old(d)@ + raw_rows(b@, 0),
{
    let n: usize = b.len();
    let mut i: usize = 0;
    let ghost all = old(d)@ + raw_rows(b@, 0);
    while i < n
        invariant
            i <= n == b@.len(),
            d@ + raw_rows(b@, i as int) == all,
        decreases n - i,
    {
        let to: usize = if n - i > 8 {
            i + 8
        } else {
            n
        };
        let ghost before = d@;
        let mut line = "  ".to_string();
        line.append(hex_text(b, i, to).as_str());
        line.append("\n");
        d.text(line.as_str());
        assert(d@ + raw_rows(b@, to as int) =~= before + raw_rows(b@, i as int));
        i = to;
    }
    assert(d@ + raw_rows(b@, n as int) =~= d@);
}

fn tail_of(b: &Vec<u8>, from: usize) -> (r: Vec<u8>)
    requires
        from <= b@.len(),
    ensures
        r@ == b@.skip(from as int),
{
    let n: usize = b.len();
    let mut r: Vec<u8> = Vec::new();
    let mut i: usize = from;
    while i < n
        invariant
            from <= i <= n == b@.len(),
            r@ == b@.subrange(from as int, i as int),
        decreases n - i,
    {
        r.push(b[i]);
        i += 1;
    }
    assert(b@.subrange(from as int, n as int) =~= b@.skip(from as int));
    r
}

fn push_panel_start(d: &mut Draft, fi: &FrameInfo)
    ensures
        final(d)@ == old(d)@ + panel_start(fi@),
{
    if fi.is_tcp {
        d.put(message1("byte_panel.tcp_response", "func", fi.func_name.clone()));
    } else {
        d.put(message1("byte_panel.rtu_response", "func", fi.func_name.clone()));
    }
    d.text("\n");
    d.text("━━━━━━━━━━━━━━━━━\n");
    d.note("byte_panel.header");
    d.text("\n");
    assert(d@ =~= old(d)@ + panel_start(fi@));
}

fn push_panel_middle(d: &mut Draft, fi: &FrameInfo, bytes: &Vec<u8>)
    requires
        bytes@.len() >= if fi.is_tcp {
            8int
        } else {
            2
        },
    ensures
        final(d)@ == old(d)@ + panel_middle(fi@, bytes@),
{
    if fi.is_tcp {
        push_tcp_head(d, bytes, &fi.func_name);
        push_body_rows(d, fi, &tail_of(bytes, 8));
    } else {
        push_rtu_head(d, bytes, &fi.func_name);
        push_body_rows(d, fi, &tail_of(bytes, 2));
    }
    assert(d@ =~= old(d)@ + panel_middle(fi@, bytes@));
}

fn push_panel_end(d: &mut Draft, bytes: &Vec<u8>)
    ensures
        final(d)@ == old(d)@ + panel_end(bytes@),
{
    d.text("━━━━━━━━━━━━━━━━━\n");
    d.note("byte_panel.raw_frame");
    d.text("\n");
    push_raw_rows(d, bytes);
    assert(d@ =~= old(d)@ + panel_end(bytes@));
}

/// A frame whose bytes are known has an address and a function code, and over
/// TCP a head before them.
proof fn lemma_frame_size(f: Frame)
    requires
        crate::frame::known_code(f.func_code),
    ensures
        crate::frame::frame_bytes(f).len() >= if f.is_tcp {
            8int
        } else {
            4
        },
{
}

/// The panel on a frame: what its bytes mean, and the bytes.
pub fn format_byte_panel(fi: &FrameInfo) -> (d: Draft)
    requires
        crate::frame::length_fits(fi@),
    ensures
        d@ == byte_panel(fi@),
{
    let mut d = Draft::new();
    let bytes: Vec<u8> = frame_bytes_from_info(fi);
    if bytes.len() == 0 {
        d.note("byte_panel.build_fail");
        assert(d@ =~= byte_panel(fi@));
        return d;
    }
    proof {
        lemma_frame_size(fi@);
    }
    push_panel_start(&mut d, fi);
    assert(d@ =~= panel_start(fi@));
    push_panel_middle(&mut d, fi, &bytes);
    push_panel_end(&mut d, &bytes);
    d
}

/// How many records of a monitor are shown.
pub const MAX_LINES: usize = 8;

/// The line on a record.
pub open spec fn history_line(r: Record) -> Seq<char> {
    r.time + " "@ + (if r.frame.is_request {
        "⇒"@
    } else {
        "⇐"@
    }) + " "@ + (if r.frame.is_tcp {
        "TCP"@
    } else {
        "RTU"@
    }) + " "@ + r.frame.func_name + " addr=0x"@ + hex4(r.frame.addr as nat) + "\n"@
}

/// The lines on the last `n` records, the newest first.
pub open spec fn history_lines(recs: Seq<Record>, n: nat) -> Seq<Part>
    decreases n,
{
    if n == 0 {
        Seq::empty()
    } else {
        history_lines(recs, (n - 1) as nat).push(text(history_line(recs[recs.len() - n])))
    }
}

/// How many of some records are shown.
pub open spec fn shown_records(total: nat) -> nat {
    if total < MAX_LINES {
        total
    } else {
        MAX_LINES as nat
    }
}

/// The records of a history up to the one to which it is scrolled: all but the
/// last `scroll`.
pub open spec fn scrolled(recs: Seq<Record>, scroll: nat) -> Seq<Record> {
    if scroll < recs.len() {
        recs.take(recs.len() - scroll)
    } else {
        Seq::empty()
    }
}

/// The history of a monitor: the last records but for those scrolled past, the
/// newest first.
pub open spec fn history_text(recs: Seq<Record>, scroll: nat) -> Seq<Part> {
    let left = scrolled(recs, scroll);
    if left.len() == 0 {
        seq![note("run_ui.no_data"@)]
    } else {
        history_lines(left, shown_records(left.len()))
    }
}

/// The line at a place of the history is on the record that stands as many places
/// before the last one, beyond those scrolled past, and no more lines than fit are
/// shown.
pub proof fn law_history_is_scrolled(recs: Seq<Record>, scroll: nat, i: int)
    requires
        scroll < recs.len(),
        0 <= i < shown_records((recs.len() - scroll) as nat),
    ensures
        history_text(recs, scroll).len() == shown_records((recs.len() - scroll) as nat),
        history_text(recs, scroll)[i] == text(history_line(recs[recs.len() - 1 - scroll - i])),
{
    let left = scrolled(recs, scroll);
    lemma_history_lines(left, shown_records(left.len()), i);
}

proof fn lemma_history_lines(recs: Seq<Record>, n: nat, i: int)
    requires
        n <= recs.len(),
        0 <= i < n,
    ensures
        history_lines(recs, n).len() == n,
        history_lines(recs, n)[i] == text(history_line(recs[recs.len() - 1 - i])),
    decreases n,
{
    if i < n - 1 {
        lemma_history_lines(recs, (n - 1) as nat, i);
    } else if n > 1 {
        lemma_history_lines(recs, (n - 1) as nat, 0);
    } else {
        assert(history_lines(recs, 0).len() == 0);
    }
}

fn history_line_text(rec: &FrameRecord) -> (r: String)
    ensures
        r@ == history_line(rec@),
{
    let mut s = rec.human_time.clone();
    s.append(" ");
    if rec.is_request {
        s.append("⇒");
    } else {
        s.append("⇐");
    }
    s.append(" ");
    if rec.is_tcp {
        s.append("TCP");
    } else {
        s.append("RTU");
    }
    s.append(" ");
    s.append(rec.func_name.as_str());
    s.append(" addr=0x");
    push_padded(&mut s, rec.addr as u128, 16, 4);
    s.append("\n");
    s
}

/// The history of a monitor, scrolled past the last `scroll` records.
pub fn format_monitor_history(m: &MonitorStats, scroll: usize) -> (d: Draft)
    ensures
        d@ == history_text(m@.history, scroll as nat),
{
    let total: usize = m.history.len();
    let left: usize = total.saturating_sub(scroll);
    let mut d = Draft::new();
    let ghost recs = scrolled(m@.history, scroll as nat);
    let n: usize = if left < MAX_LINES {
        left
    } else {
        MAX_LINES
    };
    for i in 0..n
        invariant
            total == m.history@.len(),
            left == recs.len(),
            left <= total,
            n == shown_records(left as nat),
            recs == scrolled(m@.history, scroll as nat),
            d@ == history_lines(recs, i as nat),
    {
        let place: usize = left - 1 - i;
        assert(recs[place as int] == m.history@[place as int]@);
        d.text(history_line_text(&m.history[place]).as_str());
    }
    if n == 0 {
        d.note("run_ui.no_data");
        assert(d@ =~= history_text(m@.history, scroll as nat));
    }
    d
}

/// The lines on the checksum of a frame over a serial line.
pub open spec fn crc_lines(b: Seq<u8>) -> Seq<Part> {
    let n = b.len() - 2;
    let calc = crate::frame::crc16(b.take(n)) as nat;
    let stored = pair(b[n + 1], b[n]);
    seq![
        text("\n"@),
        note("byte_panel.crc_verify_title"@),
        text("\n"@),
        text("  "@),
        note("byte_panel.crc_calculated"@),
        text(" "@ + hex4(calc) + "\n"@),
        text("  "@),
        note("byte_panel.crc_stored"@),
        text(" "@ + hex4(stored) + "\n"@),
        text("  "@),
        if calc == stored {
            note("byte_panel.crc_match"@)
        } else {
            note("byte_panel.crc_mismatch"@)
        },
    ]
}

/// The analysis of a record: the panel on its frame, and whether its checksum is
/// right, or that it has none.
pub open spec fn analysis(r: Record) -> Seq<Part> {
    let b = crate::frame::frame_bytes(r.frame);
    byte_panel(r.frame) + (if r.frame.is_tcp {
        seq![
            text("\n  "@),
            if r.frame.is_request {
                note("byte_panel.tcp_req_note"@)
            } else {
                note("byte_panel.tcp_resp_note"@)
            },
        ]
    } else if b.len() >= 3 {
        crc_lines(b)
    } else {
        Seq::empty()
    })
}

fn hex_line(n: u16) -> (r: String)
    ensures
        r@ == " "@ + hex4(n as nat) + "\n"@,
{
    let mut s = " ".to_string();
    push_padded(&mut s, n as u128, 16, 4);
    s.append("\n");
    s
}

fn push_crc_lines(d: &mut Draft, b: &Vec<u8>)
    requires
        b@.len() >= 3,
    ensures
        final(d)@ == old(d)@ + crc_lines(b@),
{
    let n: usize = b.len() - 2;
    let mut body: Vec<u8> = Vec::new();
    for i in 0..n
        invariant
            n < b@.len(),
            body@ == b@.take(i as int),
    {
        body.push(b[i]);
    }
    let calc: u16 = calc_crc16(&body);
    let stored: u16 = pair_of(b[n + 1], b[n]);
    d.text("\n");
    d.note("byte_panel.crc_verify_title");
    d.text("\n");
    d.text("  ");
    d.note("byte_panel.crc_calculated");
    d.text(hex_line(calc).as_str());
    d.text("  ");
    d.note("byte_panel.crc_stored");
    d.text(hex_line(stored).as_str());
    d.text("  ");
    if calc == stored {
        d.note("byte_panel.crc_match");
    } else {
        d.note("byte_panel.crc_mismatch");
    }
    assert(d@ =~= old(d)@ + crc_lines(b@));
}

/// The analysis of a record.
pub fn format_protocol_analysis(rec: &FrameRecord) -> (d: Draft)
    requires
        crate::frame::length_fits(rec@.frame),
    ensures
        d@ == analysis(rec@),
{
    let fi = FrameInfo {
        is_tcp: rec.is_tcp,
        unit: rec.unit,
        func_code: rec.func_code,
        func_name: rec.func_name.clone(),
        addr: rec.addr,
        values: copy_words(&rec.values),
        is_request: rec.is_request,
    };
    assert(fi@ == rec@.frame);
    let mut d = format_byte_panel(&fi);
    let ghost panel = d@;
    if rec.is_tcp {
        d.text("\n  ");
        if rec.is_request {
            d.note("byte_panel.tcp_req_note");
        } else {
            d.note("byte_panel.tcp_resp_note");
        }
    } else {
        let bytes: Vec<u8> = frame_bytes_from_info(&fi);
        if bytes.len() >= 3 {
            push_crc_lines(&mut d, &bytes);
        }
    }
    assert(d@ =~= analysis(rec@));
    d
}

/// The analysis of a record over a serial line finds that the checksum is right,
/// whatever the record says.
pub proof fn law_analysis_checksum_is_right(r: Record)
    requires
        !r.frame.is_tcp,
        crate::frame::known_code(r.frame.func_code),
    ensures
        analysis(r).last() == note("byte_panel.crc_match"@),
{
    let b = crate::frame::frame_bytes(r.frame);
    let body = seq![r.frame.unit] + crate::frame::pdu(r.frame);
    lemma_frame_size(r.frame);
    let n = b.len() - 2;
    assert(b.take(n) =~= body);
    assert(analysis(r) =~= byte_panel(r.frame) + crc_lines(b));
}

/// The lines on how often codes or addresses were counted, the first `n` of them.
pub open spec fn count_lines<K>(
    entries: Seq<(K, usize)>,
    hex: spec_fn(K) -> Seq<char>,
    n: nat,
) -> Seq<Part>
    decreases n,
{
    if n == 0 {
        Seq::empty()
    } else {
        let e = entries[n - 1];
        count_lines(entries, hex, (n - 1) as nat).push(
            text("  0x"@ + hex(e.0) + ": "@ + crate::numeral::decimal(e.1 as nat) + "\n"@),
        )
    }
}

/// How many addresses are shown.
pub const MAX_ADDRESSES: usize = 10;

/// A function code in hexadecimal.
pub open spec fn code_hex(k: u8) -> Seq<char> {
    hex2(k as nat)
}

/// An address in hexadecimal.
pub open spec fn addr_hex(k: u16) -> Seq<char> {
    hex4(k as nat)
}

/// The statistics of a monitor, for given rankings of what it counted.
pub open spec fn stats_text(
    total: nat,
    codes: Seq<(u8, usize)>,
    addrs: Seq<(u16, usize)>,
) -> Seq<Part> {
    let shown: nat = if addrs.len() < MAX_ADDRESSES {
        addrs.len()
    } else {
        MAX_ADDRESSES as nat
    };
    let none = seq![text("  "@), note("run_ui.no_data"@), text("\n"@)];
    seq![
        note("run_ui.monitor_total_frames"@),
        text(": "@ + crate::numeral::decimal(total) + "\n"@),
        note("run_ui.monitor_func_header"@),
        text("\n"@),
    ] + (if codes.len() == 0 {
        none
    } else {
        count_lines(codes, |k: u8| code_hex(k), codes.len())
    }) + seq![note("run_ui.monitor_addr_header"@), text("\n"@)] + (if addrs.len() == 0 {
        none
    } else {
        count_lines(addrs, |k: u16| addr_hex(k), shown)
    })
}

fn push_nothing(d: &mut Draft)
    ensures
        final(d)@ == old(d)@ + seq![text("  "@), note("run_ui.no_data"@), text("\n"@)],
{
    d.text("  ");
    d.note("run_ui.no_data");
    d.text("\n");
    assert(d@ =~= old(d)@ + seq![text("  "@), note("run_ui.no_data"@), text("\n"@)]);
}

fn push_code_counts(d: &mut Draft, codes: &Vec<(u8, usize)>)
    ensures
        final(d)@ == old(d)@ + count_lines(codes@, |k: u8| code_hex(k), codes@.len()),
{
    let n: usize = codes.len();
    let ghost hex = |k: u8| code_hex(k);
    assert(old(d)@ + count_lines(codes@, hex, 0) =~= old(d)@);
    for i in 0..n
        invariant
            n == codes@.len(),
            hex == (|k: u8| code_hex(k)),
            d@ == old(d)@ + count_lines(codes@, hex, i as nat),
    {
        let mut s = "  0x".to_string();
        push_padded(&mut s, codes[i].0 as u128, 16, 2);
        s.append(": ");
        push_decimal(&mut s, codes[i].1 as u128);
        s.append("\n");
        d.text(s.as_str());
        assert(d@ =~= old(d)@ + count_lines(codes@, hex, (i + 1) as nat));
    }
}

fn push_addr_counts(d: &mut Draft, addrs: &Vec<(u16, usize)>, n: usize)
    requires
        n <= addrs@.len(),
    ensures
        final(d)@ == old(d)@ + count_lines(addrs@, |k: u16| addr_hex(k), n as nat),
{
    let ghost hex = |k: u16| addr_hex(k);
    assert(old(d)@ + count_lines(addrs@, hex, 0) =~= old(d)@);
    for i in 0..n
        invariant
            n <= addrs@.len(),
            hex == (|k: u16| addr_hex(k)),
            d@ == old(d)@ + count_lines(addrs@, hex, i as nat),
    {
        let mut s = "  0x".to_string();
        push_padded(&mut s, addrs[i].0 as u128, 16, 4);
        s.append(": ");
        push_decimal(&mut s, addrs[i].1 as u128);
        s.append("\n");
        d.text(s.as_str());
        assert(d@ =~= old(d)@ + count_lines(addrs@, hex, (i + 1) as nat));
    }
}

/// The statistics of a monitor, for given rankings of what it counted.
pub fn monitor_stats_text(
    total: usize,
    codes: &Vec<(u8, usize)>,
    addrs: &Vec<(u16, usize)>,
) -> (d: Draft)
    ensures
        d@ == stats_text(total as nat, codes@, addrs@),
{
    let mut d = Draft::new();
    d.note("run_ui.monitor_total_frames");
    let mut s = ": ".to_string();
    push_decimal(&mut s, total as u128);
    s.append("\n");
    d.text(s.as_str());
    d.note("run_ui.monitor_func_header");
    d.text("\n");
    let ghost first = d@;
    if codes.len() == 0 {
        push_nothing(&mut d);
    } else {
        push_code_counts(&mut d, codes);
    }
    let ghost second = d@;
    d.note("run_ui.monitor_addr_header");
    d.text("\n");
    assert(d@ =~= second + seq![note("run_ui.monitor_addr_header"@), text("\n"@)]);
    if addrs.len() == 0 {
        push_nothing(&mut d);
    } else {
        let n: usize = if addrs.len() < MAX_ADDRESSES {
            addrs.len()
        } else {
            MAX_ADDRESSES
        };
        push_addr_counts(&mut d, addrs, n);
    }
    assert(d@ =~= stats_text(total as nat, codes@, addrs@));
    d
}

/// The statistics of a monitor: what was counted most stands first, and what was
/// counted alike in no particular order.
pub fn format_monitor_stats(m: &MonitorStats) -> (d: Draft)
    ensures
        exists|codes: Seq<(u8, usize)>, addrs: Seq<(u16, usize)>| #[trigger]
            crate::listing::is_ranking(codes, m@.func_count) && #[trigger]
            crate::listing::is_ranking(addrs, m@.addr_count) && d@ == stats_text(
                m@.total_frames as nat,
                codes,
                addrs,
            ),
{
    let codes: Vec<(u8, usize)> = rank_codes(&m.func_count);
    let addrs: Vec<(u16, usize)> = rank_addresses(&m.addr_count);
    assert(crate::listing::is_ranking(codes@, m@.func_count));
    assert(crate::listing::is_ranking(addrs@, m@.addr_count));
    monitor_stats_text(m.total_frames, &codes, &addrs)
}

/// How many columns a character takes: two if it is not an ASCII character.
pub open spec fn columns(c: char) -> nat {
    if c as int > 0x7F {
        2
    } else {
        1
    }
}

fn columns_of(c: char) -> (r: usize)
    ensures
        r == columns(c),
{
    if c as u32 > 0x7F {
        2
    } else {
        1
    }
}

/// How many lines a text has taken in a width, and how many columns of the last.
pub open spec fn flowed(s: Seq<char>, width: nat) -> (nat, nat)
    decreases s.len(),
{
    if s.len() == 0 {
        (1, 0)
    } else {
        let (lines, col) = flowed(s.drop_last(), width);
        let c = s.last();
        if c == '\n' {
            (lines + 1, 0)
        } else if col + columns(c) > width {
            (lines + 1, columns(c))
        } else {
            (lines, col + columns(c))
        }
    }
}

/// How many lines a text takes in a width; none where there is no width.
pub fn wrapped_lines(text: &str, width: usize) -> (r: usize)
    requires
        text@.len() < usize::MAX,
    ensures
        r == if width == 0 {
            0
        } else {
            flowed(text@, width as nat).0
        },
        r <= text@.len() + 1,
{
    if width == 0 {
        return 0;
    }
    let v: Vec<char> = crate::text::chars_of(text);
    let n: usize = v.len();
    let mut lines: usize = 1;
    let mut col: usize = 0;
    assert(v@.take(0) =~= Seq::<char>::empty());
    for i in 0..n
        invariant
            n == v@.len(),
            n < usize::MAX,
            width > 0,
            lines <= i + 1,
            (lines as nat, col as nat) == flowed(v@.take(i as int), width as nat),
            col <= width || col <= 2,
    {
        let ghost t = v@.take(i + 1);
        assert(t.drop_last() =~= v@.take(i as int));
        let c: char = v[i];
        if c == '\n' {
            lines += 1;
            col = 0;
        } else {
            let w: usize = columns_of(c);
            if col > width || w > width - col {
                lines += 1;
                col = w;
            } else {
                col += w;
            }
        }
    }
    assert(v@.take(n as int) =~= v@);
    lines
}

} // verus!
