//! The registers as they are written to a file.
use crate::clock::{chrono_at, moment_now, Moment};
use crate::format::RegDataFormat;
use crate::service::copy_bits;
use crate::state::AppState;
use crate::text::chars_of;
use crate::value::{format_register_value, RegisterText};
use std::collections::HashMap;
use vstd::prelude::*;

verus! {

/// A register as it is written to a file.
#[derive(Debug)]
pub struct ExportReg {
    pub addr: usize,
    pub raw: u16,
    pub label: String,
    pub value: RegisterText,
}

/// A device as it is written to a file.
#[derive(Debug)]
pub struct ExportData {
    pub export_time: String,
    pub reg_format: String,
    pub holding: Vec<ExportReg>,
    pub coils: Vec<bool>,
    pub discrete: Vec<bool>,
    pub input_registers: Vec<ExportReg>,
}

/// Whether something is set for an address.
pub open spec fn is_set(m: Map<usize, bool>, addr: usize) -> bool {
    m.contains_key(addr) && m[addr]
}

fn set_for(m: &HashMap<usize, bool>, addr: usize) -> (r: bool)
    ensures
        r == is_set(m@, addr),
{
    broadcast use vstd::std_specs::hash::group_hash_axioms;

    match m.get(&addr) {
        Some(b) => *b,
        None => false,
    }
}

/// Whether a register is written as it stands in a table: its number, its note,
/// and its value in the format of all registers, in the order of bytes and
/// registers that is set for it.
pub open spec fn is_exported(
    r: ExportReg,
    i: int,
    regs: Seq<u16>,
    labels: Seq<Seq<char>>,
    f: RegDataFormat,
    bytes: Map<usize, bool>,
    words: Map<usize, bool>,
) -> bool {
    &&& r.addr == i
    &&& r.raw == regs[i]
    &&& r.label@ == if i < labels.len() {
        labels[i]
    } else {
        Seq::empty()
    }
    &&& crate::value::register_shown(
        regs,
        i,
        f,
        is_set(bytes, i as usize),
        is_set(words, i as usize),
        r.value@,
    )
}

/// Whether registers are written as they stand in a table, each once.
pub open spec fn all_exported(
    v: Seq<ExportReg>,
    regs: Seq<u16>,
    labels: Seq<Seq<char>>,
    f: RegDataFormat,
    bytes: Map<usize, bool>,
    words: Map<usize, bool>,
) -> bool {
    &&& v.len() == regs.len()
    &&& forall|i: int|
        0 <= i < v.len() ==> is_exported(#[trigger] v[i], i, regs, labels, f, bytes, words)
}

fn make_regs(
    regs: &Vec<u16>,
    labels: &Vec<String>,
    f: RegDataFormat,
    bytes: &HashMap<usize, bool>,
    words: &HashMap<usize, bool>,
) -> (r: Vec<ExportReg>)
    ensures
        all_exported(r@, regs@, crate::text::texts(labels@), f, bytes@, words@),
{
    let mut r: Vec<ExportReg> = Vec::new();
    for i in 0..regs.len()
        invariant
            r@.len() == i,
            forall|j: int|
                0 <= j < i ==> is_exported(
                    #[trigger] r@[j],
                    j,
                    regs@,
                    crate::text::texts(labels@),
                    f,
                    bytes@,
                    words@,
                ),
    {
        let value: RegisterText = format_register_value(
            regs,
            i,
            f,
            set_for(bytes, i),
            set_for(words, i),
        );
        let label: String = if i < labels.len() {
            labels[i].clone()
        } else {
            String::new()
        };
        r.push(ExportReg { addr: i, raw: regs[i], label, value });
    }
    r
}

/// A text with one character in place of another.
pub open spec fn replaced(s: Seq<char>, a: char, b: char) -> Seq<char> {
    Seq::new(
        s.len(),
        |i: int|
            if s[i] == a {
                b
            } else {
                s[i]
            },
    )
}

fn replace(s: &str, a: char, b: char) -> (r: String)
    ensures
        r@ == replaced(s@, a, b),
{
    let v: Vec<char> = chars_of(s);
    let mut r = String::new();
    for i in 0..v.len()
        invariant
            v@ == s@,
            r@ == replaced(s@.take(i as int), a, b),
    {
        let c: char = v[i];
        r.push(
            if c == a {
                b
            } else {
                c
            },
        );
        assert(replaced(s@.take(i + 1), a, b) =~= replaced(s@.take(i as int), a, b).push(
            if c == a {
                b
            } else {
                c
            },
        ));
    }
    assert(s@.take(s@.len() as int) =~= s@);
    r
}

/// The name of the file for a time.
pub open spec fn file_name(time: Seq<char>) -> Seq<char> {
    "modbus_export_"@ + replaced(replaced(time, ' ', '_'), ':', '-') + ".json"@
}

/// Whether a device is written as it is at a moment.
pub open spec fn export_of(
    d: ExportData,
    name: Seq<char>,
    f: RegDataFormat,
    s: AppState,
    at: Option<Moment>,
) -> bool {
    &&& d.export_time@ == crate::clock::export_text(at)
    &&& name == file_name(crate::clock::export_text(at))
    &&& d.reg_format@ == crate::format::label_of(f)
    &&& all_exported(
        d.holding@,
        s.holding@,
        crate::text::texts(s.holding_label@),
        f,
        s.holding_swap_bytes@,
        s.holding_swap_words@,
    )
    &&& d.coils@ == s.coils@
    &&& d.discrete@ == s.discrete@
    &&& all_exported(
        d.input_registers@,
        s.input_registers@,
        Seq::empty(),
        f,
        s.input_swap_bytes@,
        s.input_swap_words@,
    )
}

/// A device as it is written to a file at a moment, and the name of the file.
pub fn export_registers_at(f: RegDataFormat, s: &AppState, at: Option<Moment>) -> (r: (
    String,
    ExportData,
))
    ensures
        export_of(r.1, r.0@, f, *s, at),
{
    let now: String = chrono_at(at);
    let mut name: String = "modbus_export_".to_string();
    let stamp: String = replace(replace(now.as_str(), ' ', '_').as_str(), ':', '-');
    name.append(stamp.as_str());
    name.append(".json");
    let none: Vec<String> = Vec::new();
    assert(crate::text::texts(none@) =~= Seq::<Seq<char>>::empty());
    let data = ExportData {
        export_time: now,
        reg_format: f.short_label(),
        holding: make_regs(
            &s.holding,
            &s.holding_label,
            f,
            &s.holding_swap_bytes,
            &s.holding_swap_words,
        ),
        coils: copy_bits(&s.coils),
        discrete: copy_bits(&s.discrete),
        input_registers: make_regs(
            &s.input_registers,
            &none,
            f,
            &s.input_swap_bytes,
            &s.input_swap_words,
        ),
    };
    (name, data)
}

/// A device as it is written to a file now, and the name of the file.
pub fn export_registers(f: RegDataFormat, s: &AppState) -> (r: (String, ExportData))
    ensures
        exists|at: Option<Moment>|
            #![trigger crate::clock::export_text(at)]
            export_of(r.1, r.0@, f, *s, at),
{
    let at = moment_now();
    let r = export_registers_at(f, s, at);
    assert(export_of(r.1, r.0@, f, *s, at));
    r
}

/// The name of a file holds no space and no colon in place of the time.
pub proof fn law_file_name_is_plain(time: Seq<char>, i: int)
    requires
        0 <= i < file_name(time).len(),
    ensures
        file_name(time)[i] != ' ' && file_name(time)[i] != ':',
{
    reveal_strlit("modbus_export_");
    reveal_strlit(".json");
}

} // verus!
