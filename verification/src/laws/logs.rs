//! What stands in files: the log of a monitor, and exported registers.
use crate::csv::{
    fields, hex_field, is_log_name, is_log_path, line_record, lines_records, log_names,
    log_records, log_text, numbers_among, plain_field, row, value_texts, without_separators, CSV_HEADER,
};
use crate::export::{file_name, is_exported, is_set, ExportReg};
use crate::format::RegDataFormat;
use crate::monitor::Record;
use crate::numeral::{decimal, padded, unsigned_of};
use crate::text::{has_infix, is_white, join, split};
use vstd::prelude::*;

verus! {

/// A line of a log: the time, whether it was a request or an answer, the line, the unit,
/// the function by its code and its name, the address, and the values.
#[verifier::spinoff_prover]
pub proof fn law_line_tells_record(r: Record)
    ensures
        row(r) == r.time + (if r.frame.is_request {
            ",REQ,"@
        } else {
            ",RSP,"@
        }) + (if r.frame.is_tcp {
            "TCP,"@
        } else {
            "RTU,"@
        }) + decimal(r.frame.unit as nat) + ",0x"@ + padded(r.frame.func_code as nat, 16, 2) + ","@
            + r.frame.func_name + ",0x"@ + padded(r.frame.addr as nat, 16, 4) + ",\"["@ + join(
            value_texts(r.frame.values),
            ';',
        ) + "]\""@,
{
    reveal_strlit(",REQ,");
    reveal_strlit(",RSP,");
    reveal_strlit("REQ");
    reveal_strlit("RSP");
    reveal_strlit("TCP,");
    reveal_strlit("RTU,");
    reveal_strlit("TCP");
    reveal_strlit("RTU");
    reveal_strlit(",");
    let way = if r.frame.is_request {
        ",REQ,"@
    } else {
        ",RSP,"@
    };
    let line = if r.frame.is_tcp {
        "TCP,"@
    } else {
        "RTU,"@
    };
    let tail = decimal(r.frame.unit as nat) + ",0x"@ + padded(r.frame.func_code as nat, 16, 2)
        + ","@ + r.frame.func_name + ",0x"@ + padded(r.frame.addr as nat, 16, 4) + ",\"["@ + join(
        value_texts(r.frame.values),
        ';',
    ) + "]\""@;
    let head1 = r.time + ","@ + (if r.frame.is_request {
        "REQ"@
    } else {
        "RSP"@
    }) + ","@ + (if r.frame.is_tcp {
        "TCP"@
    } else {
        "RTU"@
    }) + ","@;
    let head2 = r.time + way + line;
    assert(head1 =~= head2);
}

/// The values of a line are in decimal digits, in their order.
pub proof fn law_values_are_in_decimal(values: Seq<u16>, i: int)
    requires
        0 <= i < values.len(),
    ensures
        value_texts(values).len() == values.len(),
        value_texts(values)[i] == decimal(values[i] as nat),
{
}

/// A log starts with the names of the fields, and each record has its own line.
pub proof fn law_log_grows_by_lines(recs: Seq<Record>, r: Record)
    ensures
        log_text(Seq::empty())
            == "time,direction,protocol,unit,func_code,func_name,addr,values\n"@,
        log_text(recs.push(r)) == log_text(recs) + row(r) + "\n"@,
{
    reveal_strlit("time,direction,protocol,unit,func_code,func_name,addr,values\n");
    reveal_strlit("time,direction,protocol,unit,func_code,func_name,addr,values");
    reveal_strlit("\n");
    assert(log_text(Seq::empty()) == CSV_HEADER@ + "\n"@);
    assert(CSV_HEADER@ == "time,direction,protocol,unit,func_code,func_name,addr,values"@);
    assert("time,direction,protocol,unit,func_code,func_name,addr,values"@ + "\n"@
        =~= "time,direction,protocol,unit,func_code,func_name,addr,values\n"@);
    assert(recs.push(r).drop_last() =~= recs);
}

/// A line of seven fields without values is read field by field. What is no number
/// counts as unit 1, function 0 or address 0.
pub proof fn law_fields_are_read(f: Seq<Seq<char>>)
    requires
        f.len() == 7,
        forall|i: int| 0 <= i < 7 ==> plain_field(#[trigger] f[i]),
        f[0].len() > 0,
        !is_white(f[0][0]),
        f[6].len() > 0,
        !is_white(f[6].last()),
    ensures
        line_record(join(f, ',')) matches Some(r) && {
            &&& r.time == f[0]
            &&& r.frame.is_request <==> f[1] == "REQ"@
            &&& r.frame.is_tcp <==> f[2] == "TCP"@
            &&& r.frame.unit == match unsigned_of(f[3], 10, 255) {
                Some(n) => n as int,
                None => 1,
            }
            &&& r.frame.func_code == hex_field(f[4], 255)
            &&& r.frame.func_name == f[5]
            &&& r.frame.addr == hex_field(f[6], 65535)
            &&& r.frame.values.len() == 0
        },
{
    let line = join(f, ',');
    assert forall|i: int| 0 <= i < f.len() implies !(#[trigger] f[i]).contains(',') by {
        assert(plain_field(f[i]));
    }
    assert forall|i: int| 0 <= i < f.len() implies !(#[trigger] f[i]).contains('"') by {
        assert(plain_field(f[i]));
    }
    crate::text::lemma_split_join(f, ',');
    crate::text::lemma_join_avoids(f, ',', '"');
    lemma_ends(f);
    crate::text::lemma_trim_plain(line);
    assert(fields(line) == f);
    let h1 = unsigned_of(crate::csv::unmarked(f[4]), 16, 255);
    let h2 = unsigned_of(crate::csv::unmarked(f[6]), 16, 65535);
    assert(h1 matches Some(n) ==> n <= 255);
    assert(h2 matches Some(n) ==> n <= 65535);
}

proof fn lemma_ends(f: Seq<Seq<char>>)
    requires
        f.len() >= 1,
        f[0].len() > 0,
        f.last().len() > 0,
    ensures
        join(f, ',').len() > 0,
        join(f, ',')[0] == f[0][0],
        join(f, ',').last() == f.last().last(),
    decreases f.len(),
{
    if f.len() > 1 {
        let t = f.drop_last();
        lemma_start(t);
        assert(t[0] == f[0]);
    }
}

proof fn lemma_start(f: Seq<Seq<char>>)
    requires
        f.len() >= 1,
        f[0].len() > 0,
    ensures
        join(f, ',').len() > 0,
        join(f, ',')[0] == f[0][0],
    decreases f.len(),
{
    if f.len() > 1 {
        let t = f.drop_last();
        assert(t[0] == f[0]);
        lemma_start(t);
    }
}

/// A number in hexadecimal is read with or without its mark, up to the largest that
/// there may be.
pub proof fn law_hexadecimal_field_is_read(n: nat, width: nat, max: nat)
    ensures
        hex_field("0x"@ + padded(n, 16, width), max) == if n <= max {
            n
        } else {
            0
        },
        hex_field(padded(n, 16, width), max) == if n <= max {
            n
        } else {
            0
        },
{
    reveal_strlit("0x");
    let d = padded(n, 16, width);
    crate::numeral::lemma_padded(n, 16, width);
    crate::laws::numbers::law_written_number_is_read(n, 16, width, max);
    if d.len() > 1 {
        crate::numeral::lemma_digits_plain(d, 16, 1);
    }
    assert(("0x"@ + d).skip(2) =~= d);
    assert(crate::csv::unmarked(d) == d);
    assert(crate::csv::unmarked("0x"@ + d) == crate::csv::unmarked(("0x"@ + d).skip(2)));
}

/// Values are read one after another, and what is no value is passed over.
pub proof fn law_values_are_read_in_order(parts: Seq<Seq<char>>, v: u16, other: Seq<char>)
    requires
        unsigned_of(crate::text::trim(other), 10, 65535) is None,
    ensures
        numbers_among(Seq::empty()).len() == 0,
        numbers_among(parts.push(decimal(v as nat))) == numbers_among(parts).push(v),
        numbers_among(parts.push(other)) == numbers_among(parts),
{
    let d = decimal(v as nat);
    assert(parts.push(d).drop_last() =~= parts);
    assert(parts.push(other).drop_last() =~= parts);
    crate::numeral::lemma_numeral(v as nat, 10);
    crate::numeral::lemma_digits_plain(d, 10, 0);
    crate::numeral::lemma_digits_plain(d, 10, d.len() - 1);
    crate::text::lemma_trim_plain(d);
    crate::laws::numbers::law_written_number_is_read(v as nat, 10, 0, 65535);
    assert(padded(v as nat, 10, 0) =~= d);
}

/// Lines are read one after another; an empty one, and one of too few fields, says
/// nothing.
pub proof fn law_lines_are_read_in_order(lines: Seq<Seq<char>>, line: Seq<char>)
    ensures
        lines_records(Seq::empty()).len() == 0,
        line_record(line) matches Some(r) ==> lines_records(lines.push(line)) == lines_records(
            lines,
        ).push(r),
        line_record(line) is None ==> lines_records(lines.push(line)) == lines_records(lines),
        line_record(line) is None <==> crate::text::trim(line).len() == 0 || fields(
            crate::text::trim(line),
        ).len() < 7,
{
    assert(lines.push(line).drop_last() =~= lines);
}

/// The log of a serial line is named by the device, without path separators, and any
/// other by the port; both by the moment at which it was begun.
pub proof fn law_log_is_named(
    mode: Seq<char>,
    port: u16,
    device: Seq<char>,
    at: Option<crate::clock::Moment>,
    path: Seq<char>,
    time: Seq<char>,
)
    requires
        crate::clock::is_stamp(at, time),
    ensures
        has_infix(mode, "rtu"@) && path == "./monitor/rtu-"@ + without_separators(device) + "-"@
            + time + ".csv"@ ==> is_log_path(mode, port, device, at, path),
        !has_infix(mode, "rtu"@) && path == "./monitor/tcp-"@ + decimal(port as nat) + "-"@ + time
            + ".csv"@ ==> is_log_path(mode, port, device, at, path),
        is_log_path(mode, port, device, at, path) && has_infix(mode, "rtu"@)
            ==> path.len() >= 14 && path.take(14) == "./monitor/rtu-"@ && path.skip(14).take(
            device.len() as int,
        ) == without_separators(device),
        is_log_path(mode, port, device, at, path) && !has_infix(mode, "rtu"@)
            ==> path.len() >= 14 && path.take(14) == "./monitor/tcp-"@ && path.skip(14).take(
            decimal(port as nat).len() as int,
        ) == decimal(port as nat),
{
    reveal_strlit("./monitor/rtu-");
    reveal_strlit("./monitor/tcp-");
    reveal_strlit("./monitor");
    reveal_strlit("/");
    reveal_strlit("rtu-");
    reveal_strlit("tcp-");
    let rtu = has_infix(mode, "rtu"@);
    let name = if rtu {
        "rtu-"@ + without_separators(device)
    } else {
        "tcp-"@ + decimal(port as nat)
    };
    let what = if rtu {
        without_separators(device)
    } else {
        decimal(port as nat)
    };
    let lead = if rtu {
        "./monitor/rtu-"@
    } else {
        "./monitor/tcp-"@
    };
    assert(crate::csv::MONITOR_LOG_DIR@ == "./monitor"@);
    assert("./monitor"@ + "/"@ + name =~= lead + what);
    if is_log_path(mode, port, device, at, path) {
        let t = choose|t: Seq<char>| #[trigger]
            crate::clock::is_stamp(at, t) && path == "./monitor"@ + "/"@ + name + "-"@ + t
                + ".csv"@;
        assert(path == lead + what + "-"@ + t + ".csv"@);
        assert(path.take(14) =~= lead);
        assert(path.skip(14).take(what.len() as int) =~= what);
    }
}

/// Slashes of both kinds become low lines, and nothing else changes.
pub proof fn law_separators_are_replaced(s: Seq<char>, i: int)
    requires
        0 <= i < s.len(),
    ensures
        without_separators(s).len() == s.len(),
        s[i] == '/' || s[i] == '\\' ==> without_separators(s)[i] == '_',
        s[i] != '/' && s[i] != '\\' ==> without_separators(s)[i] == s[i],
{
}

/// Logs are the files whose names end in `.csv` behind something else; all of them are
/// listed, in the order in which they come, and nothing else.
pub proof fn law_logs_are_found(names: Seq<Seq<char>>, stem: Seq<char>, name: Seq<char>)
    ensures
        is_log_name(stem + ".csv"@) <==> stem.len() > 0,
        is_log_name(name) ==> name.skip(name.len() - 4) == ".csv"@,
        log_names(Seq::empty()).len() == 0,
        is_log_name(name) ==> log_names(names.push(name)) == log_names(names).push(name),
        !is_log_name(name) ==> log_names(names.push(name)) == log_names(names),
{
    reveal_strlit(".csv");
    let s = stem + ".csv"@;
    assert(s.skip(s.len() - 4) =~= ".csv"@);
    assert(names.push(name).drop_last() =~= names);
}

/// A register is exported with its address, its number and its note, or none; and its
/// bytes and registers are exchanged where that is set for its address.
pub proof fn law_register_is_exported(
    r: ExportReg,
    i: int,
    regs: Seq<u16>,
    labels: Seq<Seq<char>>,
    f: RegDataFormat,
    bytes: Map<usize, bool>,
    words: Map<usize, bool>,
)
    requires
        is_exported(r, i, regs, labels, f, bytes, words),
        0 <= i < regs.len() <= usize::MAX,
    ensures
        r.addr == i,
        r.raw == regs[i],
        i < labels.len() ==> r.label@ == labels[i],
        i >= labels.len() ==> r.label@.len() == 0,
        crate::value::register_shown(
            regs,
            i,
            f,
            bytes.contains_key(i as usize) && bytes[i as usize],
            words.contains_key(i as usize) && words[i as usize],
            r.value@,
        ),
        is_set(bytes, i as usize) <==> bytes.contains_key(i as usize) && bytes[i as usize],
{
}

/// The file of an export is named by its time, with low lines for blanks and lines for
/// colons.
pub proof fn law_export_is_named(time: Seq<char>, i: int)
    requires
        0 <= i < time.len(),
    ensures
        ({
            let s = file_name(time);
            &&& s.len() == 14 + time.len() + 5
            &&& s.take(14) == "modbus_export_"@
            &&& s.skip(14 + time.len() as int) == ".json"@
            &&& s[14 + i] == if time[i] == ' ' {
                '_'
            } else if time[i] == ':' {
                '-'
            } else {
                time[i]
            }
        }),
{
    reveal_strlit("modbus_export_");
    reveal_strlit(".json");
    let s = file_name(time);
    assert(s.take(14) =~= "modbus_export_"@);
    assert(s.skip(14 + time.len() as int) =~= ".json"@);
}

/// An export holds every register of both tables, every coil and every discrete input, and
/// the format and the time of it; notes stand by the holding registers alone.
pub proof fn law_device_is_exported(
    d: crate::export::ExportData,
    name: Seq<char>,
    f: RegDataFormat,
    s: crate::state::AppState,
    at: Option<crate::clock::Moment>,
    i: int,
)
    requires
        crate::export::export_of(d, name, f, s, at),
        0 <= i,
    ensures
        d.holding@.len() == s.holding@.len(),
        d.input_registers@.len() == s.input_registers@.len(),
        d.coils@ == s.coils@ && d.discrete@ == s.discrete@,
        i < s.holding@.len() ==> d.holding@[i].addr == i && d.holding@[i].raw == s.holding@[i],
        i < s.holding@.len() && i < s.holding_label@.len() ==> d.holding@[i].label@
            == s.holding_label@[i]@,
        i < s.input_registers@.len() ==> d.input_registers@[i].addr == i
            && d.input_registers@[i].raw == s.input_registers@[i]
            && d.input_registers@[i].label@.len() == 0,
        d.reg_format@ == crate::format::label_of(f),
        d.export_time@ == crate::clock::export_text(at),
        name == file_name(crate::clock::export_text(at)),
        i < s.holding@.len() ==> crate::value::register_shown(
            s.holding@,
            i,
            f,
            s.holding_swap_bytes@.contains_key(i as usize) && s.holding_swap_bytes@[i as usize],
            s.holding_swap_words@.contains_key(i as usize) && s.holding_swap_words@[i as usize],
            d.holding@[i].value@,
        ),
        i < s.input_registers@.len() ==> crate::value::register_shown(
            s.input_registers@,
            i,
            f,
            s.input_swap_bytes@.contains_key(i as usize) && s.input_swap_bytes@[i as usize],
            s.input_swap_words@.contains_key(i as usize) && s.input_swap_words@[i as usize],
            d.input_registers@[i].value@,
        ),
{
    let t = crate::text::texts(s.holding_label@);
    assert(t.len() == s.holding_label@.len());
    if i < s.holding@.len() {
        assert(is_exported(
            d.holding@[i],
            i,
            s.holding@,
            t,
            f,
            s.holding_swap_bytes@,
            s.holding_swap_words@,
        ));
    }
    if i < s.input_registers@.len() {
        assert(is_exported(
            d.input_registers@[i],
            i,
            s.input_registers@,
            Seq::empty(),
            f,
            s.input_swap_bytes@,
            s.input_swap_words@,
        ));
    }
}

/// A text behind a line is split as it is alone.
proof fn lemma_split_behind_line(head: Seq<char>, rest: Seq<char>)
    requires
        !head.contains('\n'),
    ensures
        split(head.push('\n') + rest, '\n') == seq![head] + split(rest, '\n'),
    decreases rest.len(),
{
    let s = head.push('\n') + rest;
    if rest.len() == 0 {
        assert(s.drop_last() =~= head);
        crate::text::lemma_split_plain(head, '\n');
        assert(split(s, '\n') =~= seq![head] + split(rest, '\n'));
    } else {
        let prev = rest.drop_last();
        lemma_split_behind_line(head, prev);
        crate::text::lemma_split_some(prev, '\n');
        assert(s.drop_last() =~= head.push('\n') + prev);
        assert(split(s, '\n') =~= seq![head] + split(rest, '\n'));
    }
}

/// The first line of a log says nothing of its records, whatever stands in it: they are
/// what the lines behind it say. A text of one line holds none.
pub proof fn law_first_line_is_passed_over(head: Seq<char>, other: Seq<char>, line: Seq<char>)
    requires
        !head.contains('\n'),
        !other.contains('\n'),
        !line.contains('\n'),
    ensures
        log_records(head).len() == 0,
        log_records(head.push('\n') + line) == log_records(other.push('\n') + line),
        line_record(line) is None ==> log_records(head.push('\n') + line).len() == 0,
        line_record(line) matches Some(r) ==> log_records(head.push('\n') + line) == seq![r],
{
    crate::text::lemma_split_plain(head, '\n');
    crate::text::lemma_split_plain(line, '\n');
    lemma_split_behind_line(head, line);
    lemma_split_behind_line(other, line);
    assert(split(head, '\n').drop_first() =~= Seq::<Seq<char>>::empty());
    assert((seq![head] + seq![line]).drop_first() =~= seq![line]);
    assert((seq![other] + seq![line]).drop_first() =~= seq![line]);
    assert(seq![line].drop_last() =~= Seq::<Seq<char>>::empty());
    assert(lines_records(Seq::<Seq<char>>::empty()) =~= Seq::<Record>::empty());
}

/// What a line at the end of a log says comes behind what the log said without it.
pub proof fn law_line_is_read_last(content: Seq<char>, line: Seq<char>)
    requires
        !line.contains('\n'),
    ensures
        line_record(line) is None ==> log_records(content.push('\n') + line) == log_records(
            content,
        ),
        line_record(line) matches Some(r) ==> log_records(content.push('\n') + line)
            == log_records(content).push(r),
{
    crate::text::lemma_split_last(content, '\n', line);
    crate::text::lemma_split_some(content, '\n');
    let before = split(content, '\n');
    assert(before.push(line).drop_first() =~= before.drop_first().push(line));
    assert(before.drop_first().push(line).drop_last() =~= before.drop_first());
}

} // verus!
