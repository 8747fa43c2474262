//! The log of a monitor: one line for each frame, its fields between commas.
use crate::clock::{date_stamp, moment_now, Moment};
use crate::frame::Frame;
use crate::listing::sort_names;
use crate::monitor::{stats_from, FrameRecord, MonitorStats, Record};
use crate::numeral::{push_decimal, push_padded, read_unsigned};
use crate::text::{
    chars_of, cut, find, holds, same, split_chars, text_of, trim_chars, trim_chars_end_of,
    trim_chars_of,
};
use std::time::Instant;
use vstd::prelude::*;

verus! {

/// Where the logs are kept.
pub const MONITOR_LOG_DIR: &'static str = "./monitor";

/// The first line of a log.
pub const CSV_HEADER: &'static str = "time,direction,protocol,unit,func_code,func_name,addr,values";

/// The values of a frame in decimal.
pub open spec fn value_texts(values: Seq<u16>) -> Seq<Seq<char>> {
    Seq::new(values.len(), |i: int| crate::numeral::decimal(values[i] as nat))
}

/// The line of a log that says what a record says.
pub open spec fn row(r: Record) -> Seq<char> {
    r.time + ","@ + (if r.frame.is_request {
        "REQ"@
    } else {
        "RSP"@
    }) + ","@ + (if r.frame.is_tcp {
        "TCP"@
    } else {
        "RTU"@
    }) + ","@ + crate::numeral::decimal(r.frame.unit as nat) + ",0x"@ + crate::numeral::padded(
        r.frame.func_code as nat,
        16,
        2,
    ) + ","@ + r.frame.func_name + ",0x"@ + crate::numeral::padded(r.frame.addr as nat, 16, 4)
        + ",\"["@ + crate::text::join(value_texts(r.frame.values), ';') + "]\""@
}

/// The first line of a log, with its end.
pub fn csv_log_header() -> (r: String)
    ensures
        r@ == CSV_HEADER@ + "\n"@,
{
    let mut s = CSV_HEADER.to_string();
    s.append("\n");
    s
}

/// The line that is put at the end of a log for a record, with its end.
pub fn csv_log_append(rec: &FrameRecord) -> (r: String)
    ensures
        r@ == row(rec@) + "\n"@,
{
    let mut s = rec.human_time.clone();
    s.append(",");
    if rec.is_request {
        s.append("REQ");
    } else {
        s.append("RSP");
    }
    s.append(",");
    if rec.is_tcp {
        s.append("TCP");
    } else {
        s.append("RTU");
    }
    s.append(",");
    push_decimal(&mut s, rec.unit as u128);
    s.append(",0x");
    push_padded(&mut s, rec.func_code as u128, 16, 2);
    s.append(",");
    s.append(rec.func_name.as_str());
    s.append(",0x");
    push_padded(&mut s, rec.addr as u128, 16, 4);
    s.append(",\"[");
    let ghost head = s@;
    let n: usize = rec.values.len();
    let ghost all = value_texts(rec.values@);
    assert(all.take(0) =~= Seq::<Seq<char>>::empty());
    assert(s@ =~= head + crate::text::join(all.take(0), ';'));
    for i in 0..n
        invariant
            n == rec.values@.len(),
            all == value_texts(rec.values@),
            s@ == head + crate::text::join(all.take(i as int), ';'),
    {
        let ghost before = s@;
        if i > 0 {
            s.append(";");
        }
        push_decimal(&mut s, rec.values[i] as u128);
        proof {
            reveal_strlit(";");
            let t = all.take(i + 1);
            assert(t.drop_last() =~= all.take(i as int));
            assert(t.last() == crate::numeral::decimal(rec.values@[i as int] as nat));
            assert(s@ =~= head + crate::text::join(t, ';'));
        }
    }
    assert(all.take(n as int) =~= all);
    s.append("]\"");
    s.append("\n");
    s
}

/// A text without the marks of hexadecimal numbers at its start.
pub open spec fn unmarked(s: Seq<char>) -> Seq<char>
    decreases s.len(),
{
    if s.len() >= 2 && s[0] == '0' && s[1] == 'x' {
        unmarked(s.skip(2))
    } else {
        s
    }
}

/// The number up to `max` in hexadecimal that a field stands for, or zero.
pub open spec fn hex_field(s: Seq<char>, max: nat) -> nat {
    match crate::numeral::unsigned_of(unmarked(s), 16, max) {
        Some(n) => n,
        None => 0,
    }
}

/// The first place of a character in a text, or its length.
pub open spec fn first_place(s: Seq<char>, c: char) -> int
    decreases s.len(),
{
    if s.len() == 0 || s[0] == c {
        0
    } else {
        1 + first_place(s.skip(1), c)
    }
}

/// The fields of a line: what stands between the commas before the first
/// quotation mark, and what stands in the quotation marks and brackets.
pub open spec fn fields(line: Seq<char>) -> Seq<Seq<char>> {
    if line.contains('"') {
        let q = first_place(line, '"');
        crate::text::split(crate::text::trim_end_of(line.take(q), ','), ',').push(
            crate::text::trim_of(
                crate::text::trim_of(crate::text::trim_of(line.skip(q), '"'), '['),
                ']',
            ),
        )
    } else {
        crate::text::split(line, ',')
    }
}

/// The numbers of up to 16 bits among texts; the others are passed over.
pub open spec fn numbers_among(parts: Seq<Seq<char>>) -> Seq<u16>
    decreases parts.len(),
{
    if parts.len() == 0 {
        Seq::empty()
    } else {
        let before = numbers_among(parts.drop_last());
        match crate::numeral::unsigned_of(crate::text::trim(parts.last()), 10, 65535) {
            Some(n) => before.push(n as u16),
            None => before,
        }
    }
}

/// What a line says, if it has enough fields.
pub open spec fn line_record(line: Seq<char>) -> Option<Record> {
    let p = fields(crate::text::trim(line));
    if crate::text::trim(line).len() == 0 || p.len() < 7 {
        None
    } else {
        Some(
            Record {
                time: p[0],
                frame: Frame {
                    is_tcp: p[2] == "TCP"@,
                    unit: (match crate::numeral::unsigned_of(p[3], 10, 255) {
                        Some(n) => n,
                        None => 1,
                    }) as u8,
                    func_code: hex_field(p[4], 255) as u8,
                    func_name: p[5],
                    addr: hex_field(p[6], 65535) as u16,
                    values: if p.len() > 7 {
                        numbers_among(crate::text::split(p[7], ';'))
                    } else {
                        Seq::empty()
                    },
                    is_request: p[1] == "REQ"@,
                },
            },
        )
    }
}

/// What lines say, passing over those that say nothing.
pub open spec fn lines_records(lines: Seq<Seq<char>>) -> Seq<Record>
    decreases lines.len(),
{
    if lines.len() == 0 {
        Seq::empty()
    } else {
        let before = lines_records(lines.drop_last());
        match line_record(lines.last()) {
            Some(r) => before.push(r),
            None => before,
        }
    }
}

/// What a log says: its lines behind the first.
pub open spec fn log_records(content: Seq<char>) -> Seq<Record> {
    lines_records(crate::text::split(content, '\n').drop_first())
}

/// The first place of a character is the one before which it does not stand.
proof fn lemma_first_place(s: Seq<char>, c: char, i: int)
    requires
        0 <= i < s.len(),
        s[i] == c,
        forall|j: int| 0 <= j < i ==> s[j] != c,
    ensures
        first_place(s, c) == i,
    decreases s.len(),
{
    if i > 0 {
        let t = s.skip(1);
        assert forall|j: int| 0 <= j < i - 1 implies t[j] != c by {
            assert(t[j] == s[j + 1]);
        }
        lemma_first_place(t, c, i - 1);
    }
}

fn unmark(v: &Vec<char>) -> (r: Vec<char>)
    ensures
        r@ == unmarked(v@),
{
    let n: usize = v.len();
    let mut i: usize = 0;
    assert(v@.skip(0) =~= v@);
    while n - i >= 2 && v[i] == '0' && v[i + 1] == 'x'
        invariant
            i <= n == v@.len(),
            unmarked(v@) == unmarked(v@.skip(i as int)),
        decreases n - i,
    {
        assert(v@.skip(i as int).skip(2) =~= v@.skip(i + 2));
        i += 2;
    }
    assert(v@.subrange(i as int, n as int) =~= v@.skip(i as int));
    cut(v, i, n)
}

fn read_hex_field(v: &Vec<char>, max: u128) -> (r: u128)
    ensures
        r == hex_field(v@, max as nat),
        r <= max,
{
    match read_unsigned(&unmark(v), 16, max) {
        Some(n) => n,
        None => 0,
    }
}

fn line_fields(line: &Vec<char>) -> (r: Vec<Vec<char>>)
    ensures
        crate::text::rows(r@) == fields(line@),
{
    match find(line, '"') {
        Some(q) => {
            proof {
                lemma_first_place(line@, '"', q as int);
                assert(line@.contains('"'));
                assert(line@.subrange(0, q as int) =~= line@.take(q as int));
                assert(line@.subrange(q as int, line@.len() as int) =~= line@.skip(q as int));
            }
            let prefix: Vec<char> = cut(line, 0, q);
            let suffix: Vec<char> = cut(line, q, line.len());
            let mut p: Vec<Vec<char>> = split_chars(&trim_chars_end_of(&prefix, ','), ',');
            let ghost head = crate::text::rows(p@);
            let inner: Vec<char> = trim_chars_of(
                &trim_chars_of(&trim_chars_of(&suffix, '"'), '['),
                ']',
            );
            let ghost last = inner@;
            p.push(inner);
            assert(crate::text::rows(p@) =~= head.push(last));
            p
        },
        None => split_chars(line, ','),
    }
}

fn read_values(field: &Vec<char>) -> (r: Vec<u16>)
    ensures
        r@ == numbers_among(crate::text::split(field@, ';')),
{
    let parts: Vec<Vec<char>> = split_chars(field, ';');
    let ghost all = crate::text::split(field@, ';');
    let n: usize = parts.len();
    let mut r: Vec<u16> = Vec::new();
    assert(all.take(0) =~= Seq::<Seq<char>>::empty());
    for i in 0..n
        invariant
            n == parts@.len(),
            all == crate::text::rows(parts@),
            r@ == numbers_among(all.take(i as int)),
    {
        assert(all.take(i + 1).drop_last() =~= all.take(i as int));
        assert(all.take(i + 1).last() == parts@[i as int]@);
        match read_unsigned(&trim_chars(&parts[i]), 10, 65535) {
            Some(v) => {
                r.push(v as u16);
            },
            None => {},
        }
    }
    assert(all.take(n as int) =~= all);
    r
}

/// What a line of a log says, if it has enough fields.
fn parse_line(line: &Vec<char>) -> (r: Option<FrameRecord>)
    ensures
        match r {
            Some(rec) => line_record(line@) == Some(rec@),
            None => line_record(line@) is None,
        },
{
    let t: Vec<char> = trim_chars(line);
    if t.len() == 0 {
        return None;
    }
    let p: Vec<Vec<char>> = line_fields(&t);
    let ghost parts = fields(t@);
    assert(crate::text::rows(p@) == parts);
    if p.len() < 7 {
        return None;
    }
    assert forall|i: int| 0 <= i < p@.len() implies parts[i] == #[trigger] p@[i]@ by {
        assert(crate::text::rows(p@)[i] == p@[i]@);
    }
    let unit: u8 = match read_unsigned(&p[3], 10, 255) {
        Some(n) => n as u8,
        None => 1,
    };
    let func_code: u8 = read_hex_field(&p[4], 255) as u8;
    let addr: u16 = read_hex_field(&p[6], 65535) as u16;
    let values: Vec<u16> = if p.len() > 7 {
        read_values(&p[7])
    } else {
        Vec::new()
    };
    let direction = text_of(&p[1]);
    let protocol = text_of(&p[2]);
    let rec = FrameRecord {
        timestamp: Instant::now(),
        human_time: text_of(&p[0]),
        func_code,
        func_name: text_of(&p[5]),
        addr,
        values,
        is_tcp: same(protocol.as_str(), "TCP"),
        is_request: same(direction.as_str(), "REQ"),
        unit,
    };
    proof {
        assert(rec@.frame.values =~= line_record(line@)->0.frame.values);
        assert(line_record(line@) == Some(rec@));
    }
    Some(rec)
}

/// What a log says.
pub fn parse_csv_log(content: &str) -> (r: Vec<FrameRecord>)
    ensures
        crate::monitor::records(r@) == log_records(content@),
{
    let lines: Vec<Vec<char>> = split_chars(&chars_of(content), '\n');
    let ghost all = crate::text::split(content@, '\n').drop_first();
    let n: usize = lines.len();
    proof {
        crate::text::lemma_split_some(content@, '\n');
        assert(crate::text::rows(lines@).len() == lines@.len());
    }
    let mut r: Vec<FrameRecord> = Vec::new();
    let mut i: usize = 1;
    assert(all.take(0) =~= Seq::<Seq<char>>::empty());
    assert(crate::monitor::records(r@) =~= Seq::<Record>::empty());
    while i < n
        invariant
            1 <= i <= n == lines@.len(),
            all == crate::text::rows(lines@).drop_first(),
            crate::monitor::records(r@) == lines_records(all.take(i - 1)),
        decreases n - i,
    {
        assert(all.take(i as int).drop_last() =~= all.take(i - 1));
        assert(all.take(i as int).last() == lines@[i as int]@);
        match parse_line(&lines[i]) {
            Some(rec) => {
                let ghost before = r@;
                let ghost said = rec@;
                r.push(rec);
                assert(crate::monitor::records(r@) =~= crate::monitor::records(before).push(said));
            },
            None => {},
        }
        i += 1;
    }
    assert(all.take(n - 1) =~= all);
    r
}

/// A monitor that is filled from a log.
pub fn load_csv_into_monitor(content: &str) -> (r: MonitorStats)
    ensures
        r@ == crate::monitor::stats_of(log_records(content@)),
        r@.wf(),
{
    stats_from(parse_csv_log(content))
}

/// A text with the path separators replaced.
pub open spec fn without_separators(s: Seq<char>) -> Seq<char> {
    Seq::new(
        s.len(),
        |i: int|
            if s[i] == '/' || s[i] == '\\' {
                '_'
            } else {
                s[i]
            },
    )
}

/// Whether a path is that of the log of a mode, a port or a device, begun at a
/// moment.
pub open spec fn is_log_path(
    main_mode: Seq<char>,
    tcp_port: u16,
    device: Seq<char>,
    at: Option<Moment>,
    path: Seq<char>,
) -> bool {
    let name = if crate::text::has_infix(main_mode, "rtu"@) {
        "rtu-"@ + without_separators(device)
    } else {
        "tcp-"@ + crate::numeral::decimal(tcp_port as nat)
    };
    exists|time: Seq<char>| #[trigger]
        crate::clock::is_stamp(at, time) && path == MONITOR_LOG_DIR@ + "/"@ + name + "-"@ + time
            + ".csv"@
}

/// The path of a log that is begun at a moment.
pub fn csv_log_path_at(main_mode: &str, tcp_port: u16, device: &str, at: Option<Moment>) -> (r:
    String)
    ensures
        is_log_path(main_mode@, tcp_port, device@, at, r@),
{
    let time = date_stamp(at);
    let mut name = String::new();
    if holds(main_mode, "rtu") {
        name.append("rtu-");
        let v: Vec<char> = chars_of(device);
        let n: usize = v.len();
        let ghost head = name@;
        for i in 0..n
            invariant
                n == v@.len(),
                name@ == head + without_separators(v@).take(i as int),
        {
            let c: char = v[i];
            if c == '/' || c == '\\' {
                name.push('_');
            } else {
                name.push(c);
            }
            assert(without_separators(v@).take(i + 1) =~= without_separators(v@).take(
                i as int,
            ).push(without_separators(v@)[i as int]));
        }
        assert(without_separators(v@).take(n as int) =~= without_separators(v@));
        assert(name@ =~= "rtu-"@ + without_separators(device@));
    } else {
        name.append("tcp-");
        push_decimal(&mut name, tcp_port as u128);
        assert(name@ =~= "tcp-"@ + crate::numeral::decimal(tcp_port as nat));
    }
    let mut path = MONITOR_LOG_DIR.to_string();
    path.append("/");
    path.append(name.as_str());
    path.append("-");
    path.append(time.as_str());
    path.append(".csv");
    path
}

/// The path of a log that is begun now.
pub fn csv_log_path(main_mode: &str, tcp_port: u16, device: &str) -> (r: String)
    ensures
        exists|at: Option<Moment>| #[trigger]
            is_log_path(main_mode@, tcp_port, device@, at, r@),
{
    let at = moment_now();
    csv_log_path_at(main_mode, tcp_port, device, at)
}

/// Whether a field can stand in a line as it is.
pub open spec fn plain_field(s: Seq<char>) -> bool {
    !s.contains(',') && !s.contains('"') && !s.contains('\n')
}

/// Whether the texts of a record can stand in a line as they are.
pub open spec fn plain_record(r: Record) -> bool {
    &&& plain_field(r.time)
    &&& plain_field(r.frame.func_name)
    &&& r.time.len() > 0 ==> !crate::text::is_white(r.time[0])
}

/// A log: its first line, and a line for each record.
pub open spec fn log_text(recs: Seq<Record>) -> Seq<char>
    decreases recs.len(),
{
    if recs.len() == 0 {
        CSV_HEADER@ + "\n"@
    } else {
        log_text(recs.drop_last()) + row(recs.last()) + "\n"@
    }
}

/// The fields of a record before its values.
spec fn head_fields(r: Record) -> Seq<Seq<char>> {
    seq![
        r.time,
        if r.frame.is_request {
            "REQ"@
        } else {
            "RSP"@
        },
        if r.frame.is_tcp {
            "TCP"@
        } else {
            "RTU"@
        },
        crate::numeral::decimal(r.frame.unit as nat),
        "0x"@ + crate::numeral::padded(r.frame.func_code as nat, 16, 2),
        r.frame.func_name,
        "0x"@ + crate::numeral::padded(r.frame.addr as nat, 16, 4),
    ]
}

#[verifier::rlimit(60)]
#[verifier::spinoff_prover]
proof fn lemma_row_parts(r: Record)
    ensures
        row(r) == crate::text::join(head_fields(r), ',') + (seq![',', '"', '['] + crate::text::join(
            value_texts(r.frame.values),
            ';',
        ) + seq![']', '"']),
{
    let h = head_fields(r);
    reveal_strlit(",");
    reveal_strlit(",0x");
    reveal_strlit("0x");
    reveal_strlit(",\"[");
    reveal_strlit("]\"");
    let b1 = h.take(1);
    let b2 = h.take(2);
    let b3 = h.take(3);
    let b4 = h.take(4);
    let b5 = h.take(5);
    let b6 = h.take(6);
    assert(b2.drop_last() =~= b1);
    assert(b3.drop_last() =~= b2);
    assert(b4.drop_last() =~= b3);
    assert(b5.drop_last() =~= b4);
    assert(b6.drop_last() =~= b5);
    assert(h.drop_last() =~= b6);
    let j1 = crate::text::join(b1, ',');
    let j2 = crate::text::join(b2, ',');
    let j3 = crate::text::join(b3, ',');
    let j4 = crate::text::join(b4, ',');
    let j5 = crate::text::join(b5, ',');
    let j6 = crate::text::join(b6, ',');
    assert(j1 == r.time);
    assert(j2 =~= r.time + ","@ + h[1]);
    assert(j3 =~= j2 + ","@ + h[2]);
    assert(j4 =~= j3 + ","@ + h[3]);
    assert(j5 =~= j4 + ",0x"@ + crate::numeral::padded(r.frame.func_code as nat, 16, 2));
    assert(j6 =~= j5 + ","@ + h[5]);
    assert(crate::text::join(h, ',') =~= j6 + ",0x"@ + crate::numeral::padded(
        r.frame.addr as nat,
        16,
        4,
    ));
    assert(row(r) =~= crate::text::join(h, ',') + (seq![',', '"', '['] + crate::text::join(
        value_texts(r.frame.values),
        ';',
    ) + seq![']', '"']));
}

proof fn lemma_head_fields_plain(r: Record)
    requires
        plain_record(r),
    ensures
        forall|i: int| 0 <= i < 7 ==> plain_field(#[trigger] head_fields(r)[i]),
{
    let h = head_fields(r);
    reveal_strlit("REQ");
    reveal_strlit("RSP");
    reveal_strlit("TCP");
    reveal_strlit("RTU");
    reveal_strlit("0x");
    crate::numeral::lemma_numeral(r.frame.unit as nat, 10);
    crate::numeral::lemma_padded(r.frame.func_code as nat, 16, 2);
    crate::numeral::lemma_padded(r.frame.addr as nat, 16, 4);
    lemma_digits_plain_field(h[3], 10);
    let d4 = crate::numeral::padded(r.frame.func_code as nat, 16, 2);
    let d6 = crate::numeral::padded(r.frame.addr as nat, 16, 4);
    lemma_marked_plain_field(d4);
    lemma_marked_plain_field(d6);
}

proof fn lemma_digits_plain_field(d: Seq<char>, radix: nat)
    requires
        radix <= 36,
        crate::numeral::all_digits(d, radix),
    ensures
        plain_field(d),
        !d.contains(';'),
        !d.contains('['),
        !d.contains(']'),
{
    assert forall|i: int| 0 <= i < d.len() implies d[i] != ',' && d[i] != '"' && d[i] != '\n' && d[i]
        != ';' && d[i] != '[' && d[i] != ']' by {
        crate::numeral::lemma_digits_plain(d, radix, i);
    }
}

proof fn lemma_marked_plain_field(d: Seq<char>)
    requires
        crate::numeral::all_digits(d, 16),
    ensures
        plain_field("0x"@ + d),
{
    reveal_strlit("0x");
    lemma_digits_plain_field(d, 16);
    let s = "0x"@ + d;
    assert forall|i: int| 0 <= i < s.len() implies s[i] != ',' && s[i] != '"' && s[i] != '\n' by {
        if i >= 2 {
            assert(s[i] == d[i - 2]);
            assert(d.contains(d[i - 2]));
        }
    }
}

proof fn lemma_values_read(values: Seq<u16>)
    ensures
        numbers_among(value_texts(values)) == values,
    decreases values.len(),
{
    let t = value_texts(values);
    if values.len() == 0 {
        assert(values =~= Seq::<u16>::empty());
    } else {
        let v = values.last() as nat;
        lemma_values_read(values.drop_last());
        assert(t.drop_last() =~= value_texts(values.drop_last()));
        let d = crate::numeral::decimal(v);
        assert(t.last() == d);
        crate::numeral::lemma_numeral(v, 10);
        crate::numeral::lemma_digits_plain(d, 10, 0);
        crate::numeral::lemma_digits_plain(d, 10, d.len() - 1);
        crate::text::lemma_trim_plain(d);
        crate::numeral::lemma_decimal_read(v, 65535);
        assert(values.drop_last().push(values.last()) =~= values);
    }
}

proof fn lemma_value_texts_plain(values: Seq<u16>)
    ensures
        forall|i: int|
            0 <= i < values.len() ==> plain_field(#[trigger] value_texts(values)[i])
                && !value_texts(values)[i].contains(';') && !value_texts(values)[i].contains('[')
                && !value_texts(values)[i].contains(']'),
{
    assert forall|i: int| 0 <= i < values.len() implies plain_field(
        #[trigger] value_texts(values)[i],
    ) && !value_texts(values)[i].contains(';') && !value_texts(values)[i].contains('[')
        && !value_texts(values)[i].contains(']') by {
        crate::numeral::lemma_numeral(values[i] as nat, 10);
        lemma_digits_plain_field(value_texts(values)[i], 10);
    }
}

proof fn lemma_values_field_read(values: Seq<u16>)
    ensures
        numbers_among(crate::text::split(crate::text::join(value_texts(values), ';'), ';'))
            == values,
{
    let t = value_texts(values);
    if values.len() == 0 {
        let e = Seq::<char>::empty();
        assert(crate::text::split(e, ';') == seq![e]);
        assert(seq![e].drop_last() =~= Seq::<Seq<char>>::empty());
        assert(numbers_among(Seq::<Seq<char>>::empty()) == Seq::<u16>::empty());
        assert(numbers_among(seq![e]) == Seq::<u16>::empty());
        assert(values =~= Seq::<u16>::empty());
    } else {
        lemma_value_texts_plain(values);
        crate::text::lemma_split_join(t, ';');
        lemma_values_read(values);
    }
}

/// The values behind their quotation mark and bracket are found again.
proof fn lemma_quoted(vals: Seq<char>)
    requires
        !vals.contains('['),
        !vals.contains(']'),
    ensures
        ({
            let s = seq!['"', '['] + vals + seq![']', '"'];
            crate::text::trim_of(crate::text::trim_of(crate::text::trim_of(s, '"'), '['), ']')
                == vals
        }),
{
    let s = seq!['"', '['] + vals + seq![']', '"'];
    let s1 = seq!['['] + vals + seq![']', '"'];
    let s2 = seq!['['] + vals + seq![']'];
    let s3 = vals + seq![']'];
    assert(s.drop_first() =~= s1);
    assert(crate::text::trim_start_of(s, '"') == crate::text::trim_start_of(s1, '"'));
    assert(s1[0] == '[');
    assert(crate::text::trim_start_of(s1, '"') == s1);
    assert(s1.drop_last() =~= s2);
    assert(s1.last() == '"' && s2.last() == ']');
    assert(crate::text::trim_end_of(s1, '"') == crate::text::trim_end_of(s2, '"'));
    assert(crate::text::trim_end_of(s2, '"') == s2);
    assert(crate::text::trim_of(s, '"') == s2);
    assert(s2.drop_first() =~= s3);
    assert(s2[0] == '[');
    assert(s3[0] != '[') by {
        if vals.len() > 0 {
            assert(s3[0] == vals[0]);
            assert(vals.contains(vals[0]));
        }
    }
    assert(crate::text::trim_start_of(s2, '[') == crate::text::trim_start_of(s3, '['));
    assert(crate::text::trim_start_of(s3, '[') == s3);
    assert(s3.last() == ']');
    assert(crate::text::trim_end_of(s3, '[') == s3);
    if vals.len() == 0 {
        let e = Seq::<char>::empty();
        assert(s3.drop_first() =~= e);
        assert(vals =~= e);
        assert(crate::text::trim_start_of(s3, ']') == crate::text::trim_start_of(e, ']'));
        assert(crate::text::trim_start_of(e, ']') == e);
        assert(crate::text::trim_end_of(e, ']') == e);
    } else {
        assert(s3[0] == vals[0]);
        assert(vals.contains(vals[0]));
        assert(vals.contains(vals.last()));
        assert(crate::text::trim_start_of(s3, ']') == s3);
        assert(s3.drop_last() =~= vals);
        assert(crate::text::trim_end_of(s3, ']') == crate::text::trim_end_of(vals, ']'));
        assert(crate::text::trim_end_of(vals, ']') == vals);
    }
}

proof fn lemma_hex_read(n: nat, width: nat, max: nat)
    requires
        n <= max,
        width >= 2,
    ensures
        hex_field("0x"@ + crate::numeral::padded(n, 16, width), max) == n,
{
    reveal_strlit("0x");
    let d = crate::numeral::padded(n, 16, width);
    let s = "0x"@ + d;
    crate::numeral::lemma_padded(n, 16, width);
    assert(s.skip(2) =~= d);
    assert(crate::numeral::is_digit(d[1], 16));
    crate::numeral::lemma_digits_plain(d, 16, 0);
    assert(unmarked(s) == unmarked(d));
    assert(unmarked(d) == d);
}

/// A line says what the record says for which it was written.
proof fn lemma_row_read(r: Record)
    requires
        plain_record(r),
    ensures
        line_record(row(r)) == Some(r),
        !row(r).contains('\n'),
{
    let h = head_fields(r);
    let body = crate::text::join(h, ',');
    let vals = crate::text::join(value_texts(r.frame.values), ';');
    let line = row(r);
    let suffix = seq!['"', '['] + vals + seq![']', '"'];
    lemma_row_parts(r);
    lemma_head_fields_plain(r);
    lemma_value_texts_plain(r.frame.values);
    crate::text::lemma_join_avoids(h, ',', '"');
    crate::text::lemma_join_avoids(h, ',', '\n');
    crate::text::lemma_join_avoids(value_texts(r.frame.values), ';', '"');
    crate::text::lemma_join_avoids(value_texts(r.frame.values), ';', '[');
    crate::text::lemma_join_avoids(value_texts(r.frame.values), ';', ']');
    crate::text::lemma_join_avoids(value_texts(r.frame.values), ';', '\n');
    assert(line =~= body.push(',') + suffix);
    let q = body.len() + 1;
    assert(!line.contains('\n')) by {
        if line.contains('\n') {
            let i = choose|i: int| 0 <= i < line.len() && line[i] == '\n';
            if i < body.len() {
                assert(body[i] == '\n');
            } else if q + 2 <= i < q + 2 + vals.len() {
                assert(vals[i - q - 2] == '\n');
            }
        }
    }
    // The line has no white space at its ends.
    let h6 = h.drop_last();
    let d6 = crate::numeral::padded(r.frame.addr as nat, 16, 4);
    crate::numeral::lemma_padded(r.frame.addr as nat, 16, 4);
    assert(body == crate::text::join(h6, ',').push(',') + h[6]);
    lemma_join_starts(r);
    assert(!crate::text::is_white(line[0])) by {
        assert(line[0] == body[0]);
    }
    crate::text::lemma_trim_plain(line);
    // The fields before the quotation mark.
    assert forall|j: int| 0 <= j < q implies line[j] != '"' by {
        if j < body.len() {
            assert(body.contains(body[j]));
        }
    }
    assert(line[q as int] == '"');
    lemma_first_place(line, '"', q as int);
    assert(line.contains('"'));
    assert(line.take(q as int) =~= body.push(','));
    assert(line.skip(q as int) =~= suffix);
    assert(body.last() == d6.last()) by {
        assert(h[6].last() == d6.last());
    }
    crate::numeral::lemma_digits_plain(d6, 16, d6.len() - 1);
    assert(body.push(',').drop_last() =~= body);
    assert(crate::text::trim_end_of(body.push(','), ',') == crate::text::trim_end_of(body, ','));
    assert(crate::text::trim_end_of(body, ',') == body);
    crate::text::lemma_split_join(h, ',');
    lemma_quoted(vals);
    let p = fields(line);
    assert(p == h.push(vals));
    // What the fields say.
    reveal_strlit("REQ");
    reveal_strlit("RSP");
    reveal_strlit("TCP");
    reveal_strlit("RTU");
    assert("REQ"@[1] != "RSP"@[1]);
    assert("TCP"@[1] == 'C' && "RTU"@[1] == 'T');
    crate::numeral::lemma_decimal_read(r.frame.unit as nat, 255);
    lemma_hex_read(r.frame.func_code as nat, 2, 255);
    lemma_hex_read(r.frame.addr as nat, 4, 65535);
    lemma_values_field_read(r.frame.values);
}

/// A line starts with no white space.
proof fn lemma_join_starts(r: Record)
    requires
        plain_record(r),
    ensures
        crate::text::join(head_fields(r), ',').len() > 0,
        !crate::text::is_white(crate::text::join(head_fields(r), ',')[0]),
{
    lemma_row_parts(r);
    reveal_strlit(",");
    let h = head_fields(r);
    let body = crate::text::join(h, ',');
    lemma_join_first(h);
}

proof fn lemma_join_first(h: Seq<Seq<char>>)
    requires
        h.len() >= 2,
    ensures
        crate::text::join(h, ',').len() > 0,
        crate::text::join(h, ',')[0] == if h[0].len() > 0 {
            h[0][0]
        } else {
            ','
        },
    decreases h.len(),
{
    let b = h.drop_last();
    let j = crate::text::join(b, ',');
    assert(crate::text::join(h, ',') == j.push(',') + h.last());
    if h.len() == 2 {
        assert(j == b[0]);
    } else {
        lemma_join_first(b);
    }
}

proof fn lemma_header_is_one_line()
    ensures
        !CSV_HEADER@.contains('\n'),
{
    reveal_strlit("time,direction,protocol,unit,func_code,func_name,addr,values");
}

#[verifier::spinoff_prover]
proof fn lemma_log_lines(recs: Seq<Record>)
    requires
        forall|i: int| 0 <= i < recs.len() ==> plain_record(#[trigger] recs[i]),
    ensures
        crate::text::split(log_text(recs), '\n') == seq![CSV_HEADER@] + Seq::new(
            recs.len(),
            |i: int| row(recs[i]),
        ) + seq![Seq::<char>::empty()],
        log_text(recs).len() > 0,
        log_text(recs).last() == '\n',
    decreases recs.len(),
{
    reveal_strlit("\n");
    let e = Seq::<char>::empty();
    let rows = Seq::new(recs.len(), |i: int| row(recs[i]));
    let text = log_text(recs);
    if recs.len() == 0 {
        lemma_header_is_one_line();
        crate::text::lemma_split_plain(CSV_HEADER@, '\n');
        crate::text::lemma_split_last(CSV_HEADER@, '\n', e);
        assert(text =~= CSV_HEADER@.push('\n') + e);
        assert(seq![CSV_HEADER@].push(e) =~= seq![CSV_HEADER@] + rows + seq![e]);
    } else {
        let prev = recs.drop_last();
        let r = recs.last();
        assert(plain_record(recs[recs.len() - 1]));
        lemma_log_lines(prev);
        lemma_row_read(r);
        let before = log_text(prev);
        let a = before.drop_last();
        let lines = seq![CSV_HEADER@] + Seq::new(prev.len(), |i: int| row(prev[i]));
        assert(before =~= a.push('\n') + e);
        crate::text::lemma_split_last(a, '\n', e);
        assert(crate::text::split(a, '\n') =~= lines) by {
            let x = crate::text::split(a, '\n').push(e);
            assert(x == lines + seq![e]);
            assert(x.drop_last() =~= crate::text::split(a, '\n'));
            assert((lines + seq![e]).drop_last() =~= lines);
        }
        crate::text::lemma_split_last(a, '\n', row(r));
        let b = before + row(r);
        assert(b =~= a.push('\n') + row(r));
        crate::text::lemma_split_last(b, '\n', e);
        assert(text =~= b.push('\n') + e);
        assert(lines.push(row(r)).push(e) =~= seq![CSV_HEADER@] + rows + seq![e]);
    }
}

proof fn lemma_lines_records(recs: Seq<Record>)
    requires
        forall|i: int| 0 <= i < recs.len() ==> plain_record(#[trigger] recs[i]),
    ensures
        lines_records(Seq::new(recs.len(), |i: int| row(recs[i]))) == recs,
    decreases recs.len(),
{
    let rows = Seq::new(recs.len(), |i: int| row(recs[i]));
    if recs.len() == 0 {
        assert(recs =~= Seq::<Record>::empty());
    } else {
        let prev = recs.drop_last();
        assert(plain_record(recs[recs.len() - 1]));
        lemma_lines_records(prev);
        lemma_row_read(recs.last());
        assert(rows.drop_last() =~= Seq::new(prev.len(), |i: int| row(prev[i])));
        assert(prev.push(recs.last()) =~= recs);
    }
}

/// A log that was written record by record is read back as these records, in
/// the same order. The texts of a record must be able to stand in a line: a
/// comma, a quotation mark or a line end in them, or white space at the start
/// of a line, is read otherwise.
pub proof fn law_log_read_back(recs: Seq<Record>)
    requires
        forall|i: int| 0 <= i < recs.len() ==> plain_record(#[trigger] recs[i]),
    ensures
        log_records(log_text(recs)) == recs,
{
    let e = Seq::<char>::empty();
    let rows = Seq::new(recs.len(), |i: int| row(recs[i]));
    lemma_log_lines(recs);
    lemma_lines_records(recs);
    let lines = crate::text::split(log_text(recs), '\n').drop_first();
    assert(lines =~= rows.push(e));
    assert(rows.push(e).drop_last() =~= rows);
    assert(crate::text::trim(e) == e);
    assert(line_record(e) is None);
}

/// The time of day of a moment can stand in a line as it is.
pub proof fn law_clock_is_plain(at: Option<Moment>)
    ensures
        plain_field(crate::clock::clock_text(at)),
        crate::clock::clock_text(at).len() > 0,
        !crate::text::is_white(crate::clock::clock_text(at)[0]),
{
    reveal_strlit("??:??:??.???");
    reveal_strlit(":");
    reveal_strlit(".");
    match at {
        Some(m) => {
            let h = crate::numeral::padded((m.secs as nat / 3600) % 24, 10, 2);
            let mi = crate::numeral::padded((m.secs as nat / 60) % 60, 10, 2);
            let se = crate::numeral::padded(m.secs as nat % 60, 10, 2);
            let ms = crate::numeral::padded(m.millis as nat, 10, 3);
            crate::numeral::lemma_padded((m.secs as nat / 3600) % 24, 10, 2);
            crate::numeral::lemma_padded((m.secs as nat / 60) % 60, 10, 2);
            crate::numeral::lemma_padded(m.secs as nat % 60, 10, 2);
            crate::numeral::lemma_padded(m.millis as nat, 10, 3);
            let t = crate::clock::clock_text(at);
            assert(t == h + ":"@ + mi + ":"@ + se + "."@ + ms);
            crate::numeral::lemma_digits_plain(h, 10, 0);
            assert(t[0] == h[0]);
            assert forall|i: int| 0 <= i < t.len() implies t[i] != ',' && t[i] != '"' && t[i]
                != '\n' by {
                let a = h.len() as int;
                let b = a + 1 + mi.len();
                let c = b + 1 + se.len();
                if i < a {
                    crate::numeral::lemma_digits_plain(h, 10, i);
                } else if a < i < b {
                    crate::numeral::lemma_digits_plain(mi, 10, i - a - 1);
                } else if b < i < c {
                    crate::numeral::lemma_digits_plain(se, 10, i - b - 1);
                } else if c < i {
                    crate::numeral::lemma_digits_plain(ms, 10, i - c - 1);
                }
            }
        },
        None => {},
    }
}

/// Whether a file name is that of a log.
pub open spec fn is_log_name(s: Seq<char>) -> bool {
    s.len() > 4 && s.skip(s.len() - 4) == ".csv"@
}

/// The names among others that are those of logs.
pub open spec fn log_names(names: Seq<Seq<char>>) -> Seq<Seq<char>>
    decreases names.len(),
{
    if names.len() == 0 {
        Seq::empty()
    } else if is_log_name(names.last()) {
        log_names(names.drop_last()).push(names.last())
    } else {
        log_names(names.drop_last())
    }
}

/// The names of the logs among the files of a directory, the last in their order
/// first: the newest of those whose names start alike.
pub fn list_csv_logs(names: &Vec<String>) -> (r: Vec<String>)
    ensures
        crate::listing::is_sorted_copy(
            crate::text::texts(r@).reverse(),
            log_names(crate::text::texts(names@)),
        ),
{
    let ghost all = crate::text::texts(names@);
    let n: usize = names.len();
    let mut logs: Vec<String> = Vec::new();
    let end: Vec<char> = chars_of(".csv");
    assert(all.take(0) =~= Seq::<Seq<char>>::empty());
    assert(crate::text::texts(logs@) =~= Seq::<Seq<char>>::empty());
    for i in 0..n
        invariant
            n == names@.len(),
            all == crate::text::texts(names@),
            end@ == ".csv"@,
            crate::text::texts(logs@) == log_names(all.take(i as int)),
    {
        let ghost t = all.take(i + 1);
        assert(t.drop_last() =~= all.take(i as int));
        assert(t.last() == names@[i as int]@);
        let v: Vec<char> = chars_of(names[i].as_str());
        proof {
            reveal_strlit(".csv");
        }
        if v.len() > 4 {
            let tail: Vec<char> = cut(&v, v.len() - 4, v.len());
            assert(tail@ =~= v@.skip(v@.len() - 4));
            let tail = text_of(&tail);
            if same(tail.as_str(), ".csv") {
                let ghost before = logs@;
                logs.push(names[i].clone());
                assert(crate::text::texts(logs@) =~= crate::text::texts(before).push(
                    names@[i as int]@,
                ));
            }
        }
    }
    assert(all.take(n as int) =~= all);
    let sorted: Vec<String> = sort_names(&logs);
    let k: usize = sorted.len();
    let mut r: Vec<String> = Vec::new();
    for i in 0..k
        invariant
            k == sorted@.len(),
            r@.len() == i,
            forall|j: int| 0 <= j < i ==> (#[trigger] r@[j])@ == sorted@[k - 1 - j]@,
    {
        r.push(sorted[k - 1 - i].clone());
    }
    assert(crate::text::texts(r@).reverse() =~= crate::text::texts(sorted@));
    r
}

} // verus!
