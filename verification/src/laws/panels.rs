//! What stands on the screen on frames and monitors, line by line.
use crate::frame::{crc16, frame_bytes, Frame};
use crate::laws::frames::{
    data_at, law_address_comes_first, law_checksum_comes_last, law_frame_starts_with_unit_and_code,
    law_many_are_counted, law_register_is_written_whole, law_registers_stand_in_order, number_at,
};
use crate::laws::numbers::digit_row;
use crate::message::{Note, Part, Said};
use crate::monitor::Record;
use crate::numeral::{decimal, numeral, padded};
use crate::panel::{
    analysis, body_rows, byte_panel, count_lines, crc_row, flowed, hex_bytes, history_line,
    history_text, panel_end, panel_middle, panel_start, raw_rows, register_rows, stats_text,
};
use vstd::prelude::*;

verus! {

/// Whether a line of three parts stands at a place: a text, a message, and the end of
/// the line.
pub open spec fn line_at(
    p: Seq<Part>,
    i: int,
    head: Seq<char>,
    key: Seq<char>,
    args: Seq<(Seq<char>, Said)>,
) -> bool {
    &&& 0 <= i
    &&& i + 2 < p.len()
    &&& p[i] == Part::Text(head)
    &&& p[i + 1] == Part::Note(Note { key, args })
    &&& p[i + 2] == Part::Text("\n"@)
}

/// The start of a line on two bytes of a frame: their places, and the number in them
/// in four hexadecimal digits.
pub open spec fn on_two(from: int, n: int) -> Seq<char> {
    decimal(from as nat) + "-"@ + decimal((from + 1) as nat) + " "@ + padded(n as nat, 16, 4)
        + "  "@
}

/// Where the lines on what follows the head of a frame start.
pub open spec fn body_at(f: Frame) -> int {
    if f.is_tcp {
        20
    } else {
        11
    }
}

proof fn lemma_middle(f: Frame, i: int)
    requires
        frame_bytes(f).len() > 0,
        0 <= i < body_rows(f, frame_bytes(f).skip(data_at(f))).len(),
    ensures
        byte_panel(f).len() > body_at(f) + i,
        byte_panel(f)[body_at(f) + i] == body_rows(f, frame_bytes(f).skip(data_at(f)))[i],
{
    let b = frame_bytes(f);
    let rows = body_rows(f, b.skip(data_at(f)));
    assert(panel_start(f).len() == 5);
    let head = if f.is_tcp {
        crate::panel::tcp_head(b, f.func_name)
    } else {
        crate::panel::rtu_head(b, f.func_name)
    };
    assert(head.len() == body_at(f) - 5);
    assert(panel_middle(f, b) == head + rows);
    assert(byte_panel(f) == panel_start(f) + panel_middle(f, b) + panel_end(b));
}

proof fn lemma_register_row(body: Seq<u8>, base: nat, k: nat, i: int)
    requires
        0 <= i < k,
    ensures
        register_rows(body, base, k).len() == 3 * k,
        line_at(
            register_rows(body, base, k),
            3 * i,
            on_two(base + 1 + 2 * i, number_at(body, 1 + 2 * i)),
            "byte_panel.register"@,
            seq![
                ("idx"@, Said::Text(decimal(i as nat))),
                ("val"@, Said::Text(decimal(number_at(body, 1 + 2 * i) as nat))),
            ],
        ),
    decreases k,
{
    if k > 1 {
        lemma_register_row(
            body,
            base,
            (k - 1) as nat,
            if i < k - 1 {
                i
            } else {
                0
            },
        );
    } else {
        assert(register_rows(body, base, 0).len() == 0);
    }
}

/// The line on a register of an answer shows where it stands in the frame, and the
/// register itself, in hexadecimal and in decimal digits. On a serial line all
/// registers have a line, over TCP all but the last.
pub proof fn law_panel_shows_each_register(f: Frame, i: int)
    requires
        f.func_code == 3,
        0 <= i,
        f.is_tcp ==> i + 1 < f.values.len(),
        !f.is_tcp ==> i < f.values.len(),
    ensures
        line_at(
            byte_panel(f),
            body_at(f) + 3 + 3 * i,
            on_two(data_at(f) + 1 + 2 * i, f.values[i] as int),
            "byte_panel.register"@,
            seq![
                ("idx"@, Said::Text(decimal(i as nat))),
                ("val"@, Said::Text(decimal(f.values[i] as nat))),
            ],
        ),
{
    let b = frame_bytes(f);
    let body = b.skip(data_at(f));
    let n = f.values.len();
    law_registers_stand_in_order(f, i);
    let k = crate::panel::shown_registers(body.len(), n);
    assert(k == if f.is_tcp {
        n - 1
    } else {
        n as int
    });
    let base = data_at(f) as nat;
    lemma_register_row(body, base, k, i);
    let rows = register_rows(body, base, k);
    let all = body_rows(f, body);
    assert(number_at(body, 1 + 2 * i) == number_at(b, data_at(f) + 1 + 2 * i));
    assert(all.len() >= 3 + 3 * k);
    assert forall|j: int| 0 <= j < 3 * k implies #[trigger] all[3 + j] == rows[j] by {}
    assert(all[3 + 3 * i] == rows[3 * i]);
    assert(all[3 + (3 * i + 1)] == rows[3 * i + 1]);
    assert(all[3 + (3 * i + 2)] == rows[3 * i + 2]);
    lemma_middle(f, 3 + 3 * i);
    lemma_middle(f, 3 + 3 * i + 1);
    lemma_middle(f, 3 + 3 * i + 2);
}

/// The first line behind the head of an answer with registers shows how many bytes
/// follow.
pub proof fn law_panel_shows_byte_count(f: Frame)
    requires
        f.func_code == 3,
        0 < f.values.len() < 128,
    ensures
        line_at(
            byte_panel(f),
            body_at(f),
            (if f.is_tcp {
                "8    "@
            } else {
                "2    "@
            }) + " "@ + padded(2 * f.values.len(), 16, 2) + "    "@,
            "byte_panel.byte_count"@,
            seq![("count"@, Said::Text(decimal(2 * f.values.len())))],
        ),
{
    law_registers_stand_in_order(f, 0);
    lemma_middle(f, 0);
    lemma_middle(f, 1);
    lemma_middle(f, 2);
}

/// The last line behind the registers of an answer on a serial line shows the
/// checksum of the frame.
pub proof fn law_panel_shows_checksum(f: Frame)
    requires
        f.func_code == 3,
        !f.is_tcp,
        f.values.len() > 0,
    ensures
        ({
            let n = f.values.len() as int;
            let crc = crc16(frame_bytes(f).take(3 + 2 * n)) as int;
            line_at(
                byte_panel(f),
                body_at(f) + 3 + 3 * n,
                on_two(3 + 2 * n, crc),
                "byte_panel.crc16"@,
                seq![("crc"@, Said::Text(decimal(crc as nat)))],
            )
        }),
{
    let b = frame_bytes(f);
    let body = b.skip(2);
    let n = f.values.len() as int;
    law_registers_stand_in_order(f, 0);
    law_checksum_comes_last(f);
    lemma_register_row(body, 2, n as nat, 0);
    let all = body_rows(f, body);
    let rows = register_rows(body, 2, n as nat);
    let last = crc_row(body, 2);
    assert(crate::panel::shown_registers(body.len(), n as nat) == n);
    assert forall|j: int| 0 <= j < 3 implies #[trigger] all[3 + 3 * n + j] == last[j] by {}
    assert(all[3 + 3 * n + 0] == last[0]);
    assert(all[3 + 3 * n + 1] == last[1]);
    assert(all[3 + 3 * n + 2] == last[2]);
    assert(body.len() == 2 * n + 3);
    assert(body[2 * n + 1] == b[2 * n + 3] && body[2 * n + 2] == b[2 * n + 4]);
    lemma_middle(f, 3 + 3 * n);
    lemma_middle(f, 3 + 3 * n + 1);
    lemma_middle(f, 3 + 3 * n + 2);
}

/// The lines on a frame that writes show the address, and the register or how many
/// there are.
pub proof fn law_panel_shows_what_is_written(f: Frame)
    requires
        f.func_code == 6 && f.values.len() > 0 || f.func_code == 16 && f.values.len() < 65536,
    ensures
        line_at(
            byte_panel(f),
            body_at(f),
            on_two(data_at(f), f.addr as int),
            if f.func_code == 6 {
                "byte_panel.register_addr"@
            } else {
                "byte_panel.start_addr"@
            },
            seq![("addr"@, Said::Text(decimal(f.addr as nat)))],
        ),
        f.func_code == 6 ==> line_at(
            byte_panel(f),
            body_at(f) + 3,
            on_two(data_at(f) + 2, f.values[0] as int),
            "byte_panel.register_val"@,
            seq![("val"@, Said::Text(decimal(f.values[0] as nat)))],
        ),
        f.func_code == 16 ==> line_at(
            byte_panel(f),
            body_at(f) + 3,
            on_two(data_at(f) + 2, f.values.len() as int),
            "byte_panel.register_qty"@,
            seq![("qty"@, Said::Text(decimal(f.values.len())))],
        ),
{
    let b = frame_bytes(f);
    let body = b.skip(data_at(f));
    law_address_comes_first(f);
    if f.func_code == 6 {
        law_register_is_written_whole(f);
    } else {
        law_many_are_counted(f);
    }
    assert(number_at(body, 0) == number_at(b, data_at(f)));
    assert(number_at(body, 2) == number_at(b, data_at(f) + 2));
    lemma_middle(f, 0);
    lemma_middle(f, 1);
    lemma_middle(f, 2);
    lemma_middle(f, 3);
    lemma_middle(f, 4);
    lemma_middle(f, 5);
}

/// The panel on a frame without bytes says that there are none; any other says first
/// what the frame is.
pub proof fn law_panel_starts_with_function(f: Frame)
    ensures
        frame_bytes(f).len() == 0 ==> byte_panel(f) == seq![
            Part::Note(Note { key: "byte_panel.build_fail"@, args: Seq::empty() }),
        ],
        frame_bytes(f).len() > 0 ==> byte_panel(f).len() > 11 && byte_panel(f)[0] == Part::Note(
            Note {
                key: if f.is_tcp {
                    "byte_panel.tcp_response"@
                } else {
                    "byte_panel.rtu_response"@
                },
                args: seq![("func"@, Said::Text(f.func_name))],
            },
        ) && byte_panel(f)[3] == Part::Note(
            Note { key: "byte_panel.header"@, args: Seq::empty() },
        ),
{
    let b = frame_bytes(f);
    if b.len() > 0 {
        assert(byte_panel(f) == panel_start(f) + panel_middle(f, b) + panel_end(b));
        assert(panel_middle(f, b).len() >= 6);
    }
}

/// The lines on the head of a frame over TCP show the transaction, the protocol, how
/// many bytes follow, the unit and the function.
#[verifier::spinoff_prover]
pub proof fn law_panel_shows_tcp_head(f: Frame)
    requires
        f.is_tcp,
        0 < frame_bytes(f).len() < 262,
    ensures
        ({
            let p = byte_panel(f);
            let len = (frame_bytes(f).len() - 6) as nat;
            &&& line_at(
                p,
                5,
                "0-1   "@ + padded(1, 16, 4) + "  "@,
                "byte_panel.transaction_id"@,
                seq![("id"@, Said::Text(decimal(1)))],
            )
            &&& line_at(
                p,
                8,
                "2-3   "@ + padded(0, 16, 4) + "  "@,
                "byte_panel.protocol_id_modbus"@,
                Seq::empty(),
            )
            &&& line_at(
                p,
                11,
                "4-5   "@ + padded(len, 16, 4) + "  "@,
                "byte_panel.length"@,
                seq![("len"@, Said::Text(decimal(len)))],
            )
            &&& line_at(
                p,
                14,
                "6     "@ + padded(f.unit as nat, 16, 2) + "    "@,
                "byte_panel.unit"@,
                seq![("unit"@, Said::Text(decimal(f.unit as nat)))],
            )
            &&& line_at(
                p,
                17,
                "7     "@ + padded(f.func_code as nat, 16, 2) + "    "@,
                "byte_panel.func_code"@,
                seq![
                    ("name"@, Said::Text(f.func_name)),
                    ("code"@, Said::Text(decimal(f.func_code as nat))),
                ],
            )
        }),
{
    let b = frame_bytes(f);
    law_frame_starts_with_unit_and_code(f);
    let head = crate::panel::tcp_head(b, f.func_name);
    assert(head.len() == 15);
    assert(byte_panel(f) == panel_start(f) + panel_middle(f, b) + panel_end(b));
    assert forall|j: int| 0 <= j < 15 implies #[trigger] byte_panel(f)[5 + j] == head[j] by {}
    assert(byte_panel(f)[5int + 0] == head[0]);
    assert(byte_panel(f)[5int + 1] == head[1]);
    assert(byte_panel(f)[5int + 2] == head[2]);
    assert(byte_panel(f)[5int + 3] == head[3]);
    assert(byte_panel(f)[5int + 4] == head[4]);
    assert(byte_panel(f)[5int + 5] == head[5]);
    assert(byte_panel(f)[5int + 6] == head[6]);
    assert(byte_panel(f)[5int + 7] == head[7]);
    assert(byte_panel(f)[5int + 8] == head[8]);
    assert(byte_panel(f)[5int + 9] == head[9]);
    assert(byte_panel(f)[5int + 10] == head[10]);
    assert(byte_panel(f)[5int + 11] == head[11]);
    assert(byte_panel(f)[5int + 12] == head[12]);
    assert(byte_panel(f)[5int + 13] == head[13]);
    assert(byte_panel(f)[5int + 14] == head[14]);
}

/// The lines on the head of a frame on a serial line show the unit and the function.
pub proof fn law_panel_shows_rtu_head(f: Frame)
    requires
        !f.is_tcp,
        0 < frame_bytes(f).len(),
    ensures
        ({
            let p = byte_panel(f);
            &&& line_at(
                p,
                5,
                "0     "@ + padded(f.unit as nat, 16, 2) + "    "@,
                "byte_panel.unit"@,
                seq![("unit"@, Said::Text(decimal(f.unit as nat)))],
            )
            &&& line_at(
                p,
                8,
                "1     "@ + padded(f.func_code as nat, 16, 2) + "    "@,
                "byte_panel.func_code"@,
                seq![
                    ("name"@, Said::Text(f.func_name)),
                    ("code"@, Said::Text(decimal(f.func_code as nat))),
                ],
            )
        }),
{
    let b = frame_bytes(f);
    law_frame_starts_with_unit_and_code(f);
    let head = crate::panel::rtu_head(b, f.func_name);
    assert(head.len() == 6);
    assert(byte_panel(f) == panel_start(f) + panel_middle(f, b) + panel_end(b));
    assert forall|j: int| 0 <= j < 6 implies #[trigger] byte_panel(f)[5 + j] == head[j] by {}
    assert(byte_panel(f)[5int + 0] == head[0]);
    assert(byte_panel(f)[5int + 1] == head[1]);
    assert(byte_panel(f)[5int + 2] == head[2]);
    assert(byte_panel(f)[5int + 3] == head[3]);
    assert(byte_panel(f)[5int + 4] == head[4]);
    assert(byte_panel(f)[5int + 5] == head[5]);
}

proof fn lemma_two_digits(n: nat)
    requires
        n < 256,
    ensures
        padded(n, 16, 2) =~= seq![digit_row()[n as int / 16], digit_row()[n as int % 16]],
{
    reveal_strlit("0123456789ABCDEF");
    reveal_with_fuel(numeral, 3);
}

/// Bytes are shown by two hexadecimal digits each, with a blank between one and the
/// next.
pub proof fn law_bytes_are_shown_by_digits(b: Seq<u8>, k: int)
    requires
        0 <= k < b.len(),
    ensures
        hex_bytes(b).len() == 3 * b.len() - 1,
        hex_bytes(b)[3 * k] == digit_row()[b[k] as int / 16],
        hex_bytes(b)[3 * k + 1] == digit_row()[b[k] as int % 16],
        k + 1 < b.len() ==> hex_bytes(b)[3 * k + 2] == ' ',
    decreases b.len(),
{
    reveal_strlit(" ");
    lemma_two_digits(b.last() as nat);
    if b.len() > 1 {
        let t = b.drop_last();
        law_bytes_are_shown_by_digits(
            t,
            if k < t.len() {
                k
            } else {
                0
            },
        );
    }
}

proof fn lemma_raw_row(b: Seq<u8>, from: int, j: int)
    requires
        0 <= from,
        0 <= j,
        from + 8 * j < b.len(),
    ensures
        j < raw_rows(b, from).len(),
        raw_rows(b, from)[j] == Part::Text(
            "  "@ + hex_bytes(
                b.subrange(
                    from + 8 * j,
                    if from + 8 * j + 8 < b.len() {
                        from + 8 * j + 8
                    } else {
                        b.len() as int
                    },
                ),
            ) + "\n"@,
        ),
    decreases j,
{
    if j > 0 {
        lemma_raw_row(b, from + 8, j - 1);
    }
}

proof fn lemma_raw_rows_end(b: Seq<u8>, from: int)
    requires
        0 <= from <= b.len(),
    ensures
        raw_rows(b, from).len() == (b.len() - from + 7) / 8,
    decreases b.len() - from,
{
    if from < b.len() {
        lemma_raw_rows_end(
            b,
            if from + 8 < b.len() {
                from + 8
            } else {
                b.len() as int
            },
        );
    }
}

/// The panel on a frame ends with its bytes, eight to a line.
pub proof fn law_panel_ends_with_bytes(f: Frame, j: int)
    requires
        0 <= j,
        8 * j < frame_bytes(f).len(),
    ensures
        ({
            let b = frame_bytes(f);
            let p = byte_panel(f);
            let lines = (b.len() + 7) / 8;
            &&& p.len() > lines + 2
            &&& p[p.len() - lines - 2] == Part::Note(
                Note { key: "byte_panel.raw_frame"@, args: Seq::empty() },
            )
            &&& p[p.len() - lines + j] == Part::Text(
                "  "@ + hex_bytes(
                    b.subrange(
                        8 * j,
                        if 8 * j + 8 < b.len() {
                            8 * j + 8
                        } else {
                            b.len() as int
                        },
                    ),
                ) + "\n"@,
            )
        }),
{
    let b = frame_bytes(f);
    lemma_raw_row(b, 0, j);
    lemma_raw_rows_end(b, 0);
    let before = panel_start(f) + panel_middle(f, b);
    assert(byte_panel(f) == before + panel_end(b));
}

/// The history shows no more than the eight newest records that are not scrolled past,
/// the newest first, each with its time, its way, its line, its function and its
/// address. Where there are none, it says so.
pub proof fn law_history_shows_newest_first(recs: Seq<Record>, scroll: nat, i: int)
    ensures
        scroll >= recs.len() ==> history_text(recs, scroll) == seq![
            Part::Note(Note { key: "run_ui.no_data"@, args: Seq::empty() }),
        ],
        scroll < recs.len() ==> history_text(recs, scroll).len() == if recs.len() - scroll < 8 {
            recs.len() - scroll
        } else {
            8
        },
        scroll < recs.len() && 0 <= i < history_text(recs, scroll).len() ==> ({
            let r = recs[recs.len() - 1 - scroll - i];
            let way = if r.frame.is_request {
                " ⇒ "@
            } else {
                " ⇐ "@
            };
            let line = if r.frame.is_tcp {
                "TCP "@
            } else {
                "RTU "@
            };
            history_text(recs, scroll)[i] == Part::Text(
                r.time + way + line + r.frame.func_name + " addr=0x"@ + padded(
                    r.frame.addr as nat,
                    16,
                    4,
                ) + "\n"@,
            )
        }),
{
    if scroll < recs.len() {
        crate::panel::law_history_is_scrolled(recs, scroll, 0);
        if 0 <= i < history_text(recs, scroll).len() {
            crate::panel::law_history_is_scrolled(recs, scroll, i);
            let r = recs[recs.len() - 1 - scroll - i];
            reveal_strlit(" ⇒ ");
            reveal_strlit(" ⇐ ");
            reveal_strlit("⇒");
            reveal_strlit("⇐");
            reveal_strlit(" ");
            reveal_strlit("TCP ");
            reveal_strlit("RTU ");
            reveal_strlit("TCP");
            reveal_strlit("RTU");
            assert(" "@ + "⇒"@ + " "@ =~= " ⇒ "@);
            assert(" "@ + "⇐"@ + " "@ =~= " ⇐ "@);
            assert("TCP"@ + " "@ =~= "TCP "@);
            assert("RTU"@ + " "@ =~= "RTU "@);
            let way = if r.frame.is_request {
                " ⇒ "@
            } else {
                " ⇐ "@
            };
            let line = if r.frame.is_tcp {
                "TCP "@
            } else {
                "RTU "@
            };
            assert(history_line(r) =~= r.time + way + line + r.frame.func_name + " addr=0x"@
                + padded(r.frame.addr as nat, 16, 4) + "\n"@);
        }
    }
}

/// The analysis of a record is the panel on its frame, and then: over TCP, that there
/// is no checksum to look at; on a serial line, the checksum that is right and the one
/// in the frame.
pub proof fn law_analysis_follows_panel(r: Record)
    requires
        frame_bytes(r.frame).len() > 0,
    ensures
        ({
            let b = frame_bytes(r.frame);
            let p = byte_panel(r.frame);
            let n = p.len() as int;
            let a = analysis(r);
            &&& a.take(n) == p
            &&& r.frame.is_tcp ==> a.len() == n + 2 && a[n] == Part::Text(
                "\n  "@,
            ) && a[n + 1] == Part::Note(
                Note {
                    key: if r.frame.is_request {
                        "byte_panel.tcp_req_note"@
                    } else {
                        "byte_panel.tcp_resp_note"@
                    },
                    args: Seq::empty(),
                },
            )
            &&& !r.frame.is_tcp ==> a.len() == n + 11 && a[n + 4] == Part::Note(
                Note { key: "byte_panel.crc_calculated"@, args: Seq::empty() },
            ) && a[n + 5] == Part::Text(
                " "@ + padded(crc16(b.take(b.len() - 2)) as nat, 16, 4) + "\n"@,
            ) && a[n + 7] == Part::Note(
                Note { key: "byte_panel.crc_stored"@, args: Seq::empty() },
            ) && a[n + 8] == Part::Text(
                " "@ + padded(crc16(b.take(b.len() - 2)) as nat, 16, 4) + "\n"@,
            ) && a[n + 10] == Part::Note(
                Note { key: "byte_panel.crc_match"@, args: Seq::empty() },
            )
        }),
{
    let b = frame_bytes(r.frame);
    let p = byte_panel(r.frame);
    if !r.frame.is_tcp {
        law_checksum_comes_last(r.frame);
        assert(analysis(r) == p + crate::panel::crc_lines(b));
    }
    assert(analysis(r).take(p.len() as int) =~= p);
}

proof fn lemma_count_line<K>(
    entries: Seq<(K, usize)>,
    hex: spec_fn(K) -> Seq<char>,
    n: nat,
    i: int,
)
    requires
        0 <= i < n <= entries.len(),
    ensures
        count_lines(entries, hex, n).len() == n,
        count_lines(entries, hex, n)[i] == Part::Text(
            "  0x"@ + hex(entries[i].0) + ": "@ + decimal(entries[i].1 as nat) + "\n"@,
        ),
    decreases n,
{
    if n > 1 {
        lemma_count_line(
            entries,
            hex,
            (n - 1) as nat,
            if i < n - 1 {
                i
            } else {
                0
            },
        );
    } else {
        assert(count_lines(entries, hex, 0).len() == 0);
    }
}

/// The statistics show how many frames there were, a line for each function code in
/// two hexadecimal digits, and a line for each of the first ten addresses in four,
/// with how often it was counted.
pub proof fn law_statistics_show_counts(
    total: nat,
    codes: Seq<(u8, usize)>,
    addrs: Seq<(u16, usize)>,
    i: int,
    j: int,
)
    requires
        0 <= i < codes.len(),
        0 <= j < addrs.len(),
        j < 10,
    ensures
        ({
            let s = stats_text(total, codes, addrs);
            let c = codes.len() as int;
            &&& s.len() == 6 + c + (if addrs.len() < 10 {
                addrs.len() as int
            } else {
                10
            })
            &&& s[0] == Part::Note(Note { key: "run_ui.monitor_total_frames"@, args: Seq::empty() })
            &&& s[1] == Part::Text(": "@ + decimal(total) + "\n"@)
            &&& s[2] == Part::Note(Note { key: "run_ui.monitor_func_header"@, args: Seq::empty() })
            &&& s[4 + i] == Part::Text(
                "  0x"@ + padded(codes[i].0 as nat, 16, 2) + ": "@ + decimal(codes[i].1 as nat)
                    + "\n"@,
            )
            &&& s[4 + c] == Part::Note(
                Note { key: "run_ui.monitor_addr_header"@, args: Seq::empty() },
            )
            &&& s[6 + c + j] == Part::Text(
                "  0x"@ + padded(addrs[j].0 as nat, 16, 4) + ": "@ + decimal(addrs[j].1 as nat)
                    + "\n"@,
            )
        }),
{
    let c = codes.len() as int;
    let shown: nat = if addrs.len() < 10 {
        addrs.len()
    } else {
        10
    };
    let ch = |k: u8| crate::panel::code_hex(k);
    let ah = |k: u16| crate::panel::addr_hex(k);
    lemma_count_line(codes, ch, codes.len(), i);
    lemma_count_line(addrs, ah, shown, j);
    let s = stats_text(total, codes, addrs);
    let first = count_lines(codes, ch, codes.len());
    let second = count_lines(addrs, ah, shown);
    assert(s[4 + i] == first[i]);
    assert(s[6 + c + j] == second[j]);
}

/// Where nothing was counted, the statistics say so twice.
pub proof fn law_statistics_of_nothing(total: nat)
    ensures
        ({
            let s = stats_text(total, Seq::empty(), Seq::empty());
            &&& s.len() == 12
            &&& s[1] == Part::Text(": "@ + decimal(total) + "\n"@)
            &&& s[5] == Part::Note(Note { key: "run_ui.no_data"@, args: Seq::empty() })
            &&& s[10] == Part::Note(Note { key: "run_ui.no_data"@, args: Seq::empty() })
        }),
{
}

/// How many columns each of some like characters takes.
pub open spec fn all_alike(s: Seq<char>, wide: bool) -> bool {
    forall|i: int| 0 <= i < s.len() ==> #[trigger] s[i] != '\n' && ((s[i] as int >= 128) == wide)
}

/// A text in one line takes as many lines as it must in a width: an ASCII character
/// takes one column, any other takes two.
pub proof fn law_long_lines_are_folded(s: Seq<char>, wide: bool, width: nat)
    requires
        all_alike(s, wide),
        s.len() > 0,
        width >= 2,
    ensures
        ({
            let fit = if wide {
                width as int / 2
            } else {
                width as int
            };
            flowed(s, width).0 == (s.len() - 1) / fit + 1
        }),
{
    lemma_folded(s, wide, width);
}

proof fn lemma_folded(s: Seq<char>, wide: bool, width: nat)
    requires
        all_alike(s, wide),
        s.len() > 0,
        width >= 2,
    ensures
        ({
            let fit = if wide {
                width as int / 2
            } else {
                width as int
            };
            let each = if wide {
                2int
            } else {
                1
            };
            &&& flowed(s, width).0 == (s.len() - 1) / fit + 1
            &&& flowed(s, width).1 == each * ((s.len() - 1) % fit + 1)
        }),
    decreases s.len(),
{
    let fit = if wide {
        width as int / 2
    } else {
        width as int
    };
    let n = s.len() - 1;
    assert(s.last() == s[n]);
    if n > 0 {
        let t = s.drop_last();
        assert forall|i: int| 0 <= i < t.len() implies #[trigger] t[i] != '\n' && ((t[i] as int
            >= 128) == wide) by {
            assert(t[i] == s[i]);
        }
        lemma_folded(t, wide, width);
        let m = n - 1;
        vstd::arithmetic::div_mod::lemma_fundamental_div_mod(m, fit);
        vstd::arithmetic::div_mod::lemma_mod_bound(m, fit);
        let q = m / fit;
        let r = m % fit;
        if r + 1 < fit {
            vstd::arithmetic::div_mod::lemma_fundamental_div_mod_converse(n, fit, q, r + 1);
        } else {
            assert(n == (q + 1) * fit + 0) by (nonlinear_arith)
                requires
                    n - 1 == fit * q + r,
                    r + 1 == fit,
            ;
            vstd::arithmetic::div_mod::lemma_fundamental_div_mod_converse(n, fit, q + 1, 0);
        }
    } else {
        vstd::arithmetic::div_mod::lemma_small_mod(0, fit as nat);
        vstd::arithmetic::div_mod::lemma_div_basics(fit);
        assert(flowed(s.drop_last(), width) == (1nat, 0nat));
    }
}

/// Lines are folded each by itself: a text of two takes the lines of both, and an
/// empty one takes a line.
pub proof fn law_lines_are_counted_apart(a: Seq<char>, b: Seq<char>, width: nat)
    ensures
        flowed(Seq::empty(), width).0 == 1,
        flowed(a + seq!['\n'] + b, width).0 == flowed(a, width).0 + flowed(b, width).0,
        flowed(a + seq!['\n'] + b, width).1 == flowed(b, width).1,
    decreases b.len(),
{
    let s = a + seq!['\n'] + b;
    if b.len() == 0 {
        assert(s.drop_last() =~= a);
    } else {
        law_lines_are_counted_apart(a, b.drop_last(), width);
        assert(s.drop_last() =~= a + seq!['\n'] + b.drop_last());
    }
}

proof fn lemma_panel_len(f: Frame)
    requires
        frame_bytes(f).len() > 0,
    ensures
        byte_panel(f).len() == body_at(f) + body_rows(f, frame_bytes(f).skip(data_at(f))).len() + 3
            + (frame_bytes(f).len() + 7) / 8,
{
    let b = frame_bytes(f);
    lemma_raw_rows_end(b, 0);
    assert(byte_panel(f) == panel_start(f) + panel_middle(f, b) + panel_end(b));
}

/// Between the lines on the head of a frame and its bytes there are lines on the registers
/// of an answer, on how many bytes it has and on its last two, and on what is written; the
/// panels on all other frames have none there.
pub proof fn law_panel_has_no_other_lines(f: Frame)
    requires
        frame_bytes(f).len() > 0,
        f.values.len() > 0,
    ensures
        ({
            let rest = byte_panel(f).len() - body_at(f) - 3 - (frame_bytes(f).len() + 7) / 8;
            let n = f.values.len() as int;
            &&& f.func_code == 3 ==> rest == 6 + 3 * (if f.is_tcp {
                n - 1
            } else {
                n
            })
            &&& f.func_code == 6 || f.func_code == 16 ==> rest == (if f.is_tcp {
                6int
            } else {
                9
            })
            &&& !(f.func_code == 3 || f.func_code == 6 || f.func_code == 16) ==> rest == 0
        }),
{
    lemma_panel_len(f);
    let body = frame_bytes(f).skip(data_at(f));
    if f.func_code == 3 {
        law_registers_stand_in_order(f, 0);
        let k = crate::panel::shown_registers(body.len(), f.values.len());
        if k > 0 {
            lemma_register_row(body, data_at(f) as nat, k, 0);
        } else {
            assert(register_rows(body, data_at(f) as nat, 0).len() == 0);
        }
    } else if f.func_code == 6 {
        law_register_is_written_whole(f);
    } else if f.func_code == 16 {
        law_many_are_counted(f);
    }
}

/// The last line on a frame that writes on a serial line shows its checksum.
pub proof fn law_panel_shows_checksum_of_writing(f: Frame)
    requires
        f.func_code == 6 || f.func_code == 16,
        !f.is_tcp,
        f.values.len() > 0,
    ensures
        ({
            let crc = crc16(frame_bytes(f).take(6)) as int;
            line_at(
                byte_panel(f),
                body_at(f) + 6,
                on_two(6, crc),
                "byte_panel.crc16"@,
                seq![("crc"@, Said::Text(decimal(crc as nat)))],
            )
        }),
{
    let b = frame_bytes(f);
    let body = b.skip(2);
    law_checksum_comes_last(f);
    if f.func_code == 6 {
        law_register_is_written_whole(f);
    } else {
        law_many_are_counted(f);
    }
    assert(body.len() == 6 && body[4] == b[6] && body[5] == b[7]);
    lemma_middle(f, 6);
    lemma_middle(f, 7);
    lemma_middle(f, 8);
}

/// The last two bytes of an answer over TCP are shown in a line of their own, the last one
/// first.
pub proof fn law_panel_shows_last_bytes(f: Frame)
    requires
        f.func_code == 3,
        f.is_tcp,
        f.values.len() > 1,
    ensures
        ({
            let n = f.values.len() as int;
            let v = f.values[n - 1] as int;
            let turned = (v % 256) * 256 + v / 256;
            line_at(
                byte_panel(f),
                body_at(f) + 3 * n,
                on_two(7 + 2 * n, turned),
                "byte_panel.crc16"@,
                seq![("crc"@, Said::Text(decimal(turned as nat)))],
            )
        }),
{
    let b = frame_bytes(f);
    let body = b.skip(8);
    let n = f.values.len() as int;
    let k = n - 1;
    law_registers_stand_in_order(f, n - 1);
    assert(crate::panel::shown_registers(body.len(), n as nat) == k);
    lemma_register_row(body, 8, k as nat, 0);
    let all = body_rows(f, body);
    let last = crc_row(body, 8);
    assert(all[3 + 3 * k + 0] == last[0]);
    assert(all[3 + 3 * k + 1] == last[1]);
    assert(all[3 + 3 * k + 2] == last[2]);
    assert(body.len() == 2 * n + 1);
    assert(body[2 * n - 1] == b[2 * n + 7] && body[2 * n] == b[2 * n + 8]);
    lemma_middle(f, 3 + 3 * k);
    lemma_middle(f, 3 + 3 * k + 1);
    lemma_middle(f, 3 + 3 * k + 2);
}

} // verus!
