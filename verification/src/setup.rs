//! The state with which a run of the program starts.
use crate::args::{parse_combination_format, Args, MainMode};
use crate::format::{RegDataFormat, RegDataType, RegDataWidth};
use crate::listing::addresses_of;
use crate::monitor::MonitorStats;
use crate::numeral::read_unsigned;
use crate::state::{AppState, ChangeDirection, RegChangePattern, DOUBLE_ONE, DOUBLE_ZERO};
use crate::text::{chars_of, cut, matches_at, same};
use std::collections::HashMap;
use vstd::prelude::*;

verus! {

/// The address that a text stands for.
pub open spec fn address_of(k: Seq<char>) -> Option<nat> {
    crate::numeral::unsigned_of(k, 10, usize::MAX as nat)
}

/// The address of a register of one of the two tables that a key stands for:
/// input registers are marked before the address, holding registers are not.
pub open spec fn key_address(k: Seq<char>, input: bool) -> Option<nat> {
    if crate::text::starts_with(k, "i:"@) {
        if input {
            address_of(k.skip(2))
        } else {
            None
        }
    } else {
        if input {
            None
        } else {
            address_of(k)
        }
    }
}

/// A list of the same thing.
pub open spec fn repeated<T>(x: T, n: int) -> Seq<T> {
    Seq::new(n as nat, |i: int| x)
}

/// The notes on `n` registers that pairs of an address and a text give; a later
/// one replaces an earlier one.
pub open spec fn labels_of(list: Seq<(Seq<char>, Seq<char>)>, n: int) -> Seq<Seq<char>>
    decreases list.len(),
{
    if list.len() == 0 {
        repeated(Seq::<char>::empty(), n)
    } else {
        let before = labels_of(list.drop_last(), n);
        match address_of(list.last().0) {
            Some(i) => if i < n {
                before.update(i as int, list.last().1)
            } else {
                before
            },
            None => before,
        }
    }
}

/// The formats of single registers of a table that pairs of a key and a name
/// give. A plain register needs no entry.
pub open spec fn combinations_of(list: Seq<(Seq<char>, Seq<char>)>, input: bool) -> Map<
    usize,
    RegDataFormat,
>
    decreases list.len(),
{
    if list.len() == 0 {
        Map::empty()
    } else {
        let before = combinations_of(list.drop_last(), input);
        let f = crate::args::combination_of(
            crate::text::lowered(crate::text::trim(list.last().1)),
        );
        match key_address(list.last().0, input) {
            Some(i) => if f != crate::format::plain_format() {
                before.insert(i as usize, f)
            } else {
                before
            },
            None => before,
        }
    }
}

/// The registers of a table that pairs of a key and a text switch on.
pub open spec fn switches_of(list: Seq<(Seq<char>, Seq<char>)>, input: bool) -> Map<usize, bool>
    decreases list.len(),
{
    if list.len() == 0 {
        Map::empty()
    } else {
        let before = switches_of(list.drop_last(), input);
        match key_address(list.last().0, input) {
            Some(i) => if list.last().1 == "true"@ {
                before.insert(i as usize, true)
            } else {
                before
            },
            None => before,
        }
    }
}

/// A list of the same thing.
pub fn repeat<T: Copy>(x: T, n: usize) -> (r: Vec<T>)
    ensures
        r@ == repeated(x, n as int),
{
    let mut r: Vec<T> = Vec::new();
    for i in 0..n
        invariant
            r@ == repeated(x, i as int),
    {
        r.push(x);
        assert(r@ =~= repeated(x, i + 1));
    }
    r
}

fn read_address(v: &Vec<char>) -> (r: Option<usize>)
    ensures
        match r {
            Some(n) => address_of(v@) == Some(n as nat),
            None => address_of(v@) is None,
        },
{
    match read_unsigned(v, 10, usize::MAX as u128) {
        Some(n) => Some(n as usize),
        None => None,
    }
}

/// The address that a key stands for, and whether it is that of an input
/// register.
fn read_key(k: &str) -> (r: Option<(bool, usize)>)
    ensures
        match r {
            Some((input, n)) => key_address(k@, input) == Some(n as nat) && key_address(k@, !input)
                is None,
            None => key_address(k@, true) is None && key_address(k@, false) is None,
        },
{
    let v: Vec<char> = chars_of(k);
    let mark: Vec<char> = chars_of("i:");
    proof {
        reveal_strlit("i:");
    }
    if matches_at(&v, 0, &mark) {
        let rest: Vec<char> = cut(&v, 2, v.len());
        assert(rest@ =~= k@.skip(2));
        match read_address(&rest) {
            Some(n) => Some((true, n)),
            None => None,
        }
    } else {
        match read_address(&v) {
            Some(n) => Some((false, n)),
            None => None,
        }
    }
}

fn build_labels(list: &Vec<(String, String)>, n: usize) -> (r: Vec<String>)
    ensures
        crate::text::texts(r@) == labels_of(crate::args::pairs(list@), n as int),
{
    let mut r: Vec<String> = Vec::new();
    for i in 0..n
        invariant
            crate::text::texts(r@) == repeated(Seq::<char>::empty(), i as int),
    {
        let ghost before = r@;
        let empty = String::new();
        assert(empty@ =~= Seq::<char>::empty());
        r.push(empty);
        assert(crate::text::texts(r@) =~= crate::text::texts(before).push(Seq::empty()));
        assert(crate::text::texts(r@) =~= repeated(Seq::<char>::empty(), i + 1));
    }
    let ghost all = crate::args::pairs(list@);
    let k: usize = list.len();
    assert(all.take(0) =~= Seq::<(Seq<char>, Seq<char>)>::empty());
    for i in 0..k
        invariant
            k == list@.len(),
            all == crate::args::pairs(list@),
            r@.len() == n,
            crate::text::texts(r@) == labels_of(all.take(i as int), n as int),
    {
        let ghost t = all.take(i + 1);
        assert(t.drop_last() =~= all.take(i as int));
        assert(t.last() == (list@[i as int].0@, list@[i as int].1@));
        match read_address(&chars_of(list[i].0.as_str())) {
            Some(a) => {
                if a < n {
                    let ghost before = r@;
                    let label = list[i].1.clone();
                    let ghost l = label@;
                    r.set(a, label);
                    assert(crate::text::texts(r@) =~= crate::text::texts(before).update(
                        a as int,
                        l,
                    ));
                }
            },
            None => {},
        }
    }
    assert(all.take(k as int) =~= all);
    r
}

fn is_plain(f: RegDataFormat) -> (r: bool)
    ensures
        r == (f == crate::format::plain_format()),
{
    match (f.data_type, f.width) {
        (RegDataType::Uint, RegDataWidth::Bits16) => true,
        _ => false,
    }
}

fn build_combinations(list: &Vec<(String, String)>, input: bool) -> (r: HashMap<
    usize,
    RegDataFormat,
>)
    ensures
        r@ == combinations_of(crate::args::pairs(list@), input),
{
    broadcast use vstd::std_specs::hash::group_hash_axioms;

    let mut r: HashMap<usize, RegDataFormat> = HashMap::new();
    let ghost all = crate::args::pairs(list@);
    let k: usize = list.len();
    assert(all.take(0) =~= Seq::<(Seq<char>, Seq<char>)>::empty());
    for i in 0..k
        invariant
            k == list@.len(),
            all == crate::args::pairs(list@),
            r@ == combinations_of(all.take(i as int), input),
    {
        broadcast use vstd::std_specs::hash::group_hash_axioms;

        let ghost t = all.take(i + 1);
        assert(t.drop_last() =~= all.take(i as int));
        assert(t.last() == (list@[i as int].0@, list@[i as int].1@));
        match read_key(list[i].0.as_str()) {
            Some((kind, a)) => {
                if kind == input {
                    let f = parse_combination_format(list[i].1.as_str());
                    if !is_plain(f) {
                        r.insert(a, f);
                    }
                }
            },
            None => {},
        }
    }
    assert(all.take(k as int) =~= all);
    r
}

fn build_switches(list: &Vec<(String, String)>, input: bool) -> (r: HashMap<usize, bool>)
    ensures
        r@ == switches_of(crate::args::pairs(list@), input),
{
    broadcast use vstd::std_specs::hash::group_hash_axioms;

    let mut r: HashMap<usize, bool> = HashMap::new();
    let ghost all = crate::args::pairs(list@);
    let k: usize = list.len();
    assert(all.take(0) =~= Seq::<(Seq<char>, Seq<char>)>::empty());
    for i in 0..k
        invariant
            k == list@.len(),
            all == crate::args::pairs(list@),
            r@ == switches_of(all.take(i as int), input),
    {
        broadcast use vstd::std_specs::hash::group_hash_axioms;

        let ghost t = all.take(i + 1);
        assert(t.drop_last() =~= all.take(i as int));
        assert(t.last() == (list@[i as int].0@, list@[i as int].1@));
        if same(list[i].1.as_str(), "true") {
            match read_key(list[i].0.as_str()) {
                Some((kind, a)) => {
                    if kind == input {
                        r.insert(a, true);
                    }
                },
                None => {},
            }
        }
    }
    assert(all.take(k as int) =~= all);
    r
}

/// Whether a mode goes over TCP.
pub open spec fn over_tcp(m: MainMode) -> bool {
    m is TcpServer || m is TcpClient || m is TcpMonitor
}

/// The largest of four numbers.
pub open spec fn largest_of(a: int, b: int, c: int, d: int) -> int {
    let x = if a > b {
        a
    } else {
        b
    };
    let y = if c > d {
        c
    } else {
        d
    };
    if x > y {
        x
    } else {
        y
    }
}

/// Whether a state is the one with which a run in a mode and with some settings
/// starts.
pub open spec fn starts(a: crate::args::Settings, mode: MainMode, s: AppState) -> bool {
    let h = a.holding_count as int;
    let n = a.input_count as int;
    let max = largest_of(h, a.coil_count as int, a.discrete_count as int, n);
    &&& s.holding@ == repeated(0u16, h)
    &&& crate::text::texts(s.holding_label@) == labels_of(a.labels, h)
    &&& s.coils@ == repeated(false, a.coil_count as int)
    &&& s.discrete@ == repeated(false, a.discrete_count as int)
    &&& s.input_registers@ == repeated(0u16, n)
    &&& s.last_frame is None
    &&& s.is_tcp == over_tcp(mode)
    &&& s.monitor@ == crate::monitor::no_stats()
    &&& !s.stability_test_running
    &&& s.stability_stats == (0u64, 0u64, 0u64)
    &&& s.reg_change_history@.len() == 0
    &&& s.reg_just_changed@ == repeated(false, max)
    &&& s.reg_change_direction@ == repeated(ChangeDirection::Up, max)
    &&& s.holding_change_enabled@ == repeated(false, h)
    &&& s.input_change_enabled@ == repeated(false, n)
    &&& s.holding_change_patterns@ == repeated(RegChangePattern::Random, h)
    &&& s.input_change_patterns@ == repeated(RegChangePattern::Random, n)
    &&& s.holding_pattern_freqs@ == repeated(DOUBLE_ONE, h)
    &&& s.input_pattern_freqs@ == repeated(DOUBLE_ONE, n)
    &&& s.holding_pattern_phases@ == repeated(DOUBLE_ZERO, h)
    &&& s.input_pattern_phases@ == repeated(DOUBLE_ZERO, n)
    &&& s.read_enabled@ == seq![true, false, false, false]
    &&& s.slave_scan_result is None
    &&& !s.slave_scan_running
    &&& crate::state::bars(s.reg_bar_history@) == repeated(Seq::<u16>::empty(), max)
    &&& s.reg_format == crate::format::plain_format()
    &&& !s.swap_bytes
    &&& !s.swap_words
    &&& s.holding_swap_bytes@ == switches_of(a.swap_bytes_reg, false)
    &&& s.holding_swap_words@ == switches_of(a.swap_words_reg, false)
    &&& s.input_swap_bytes@ == switches_of(a.swap_bytes_reg, true)
    &&& s.input_swap_words@ == switches_of(a.swap_words_reg, true)
    &&& s.holding_combinations@ == combinations_of(a.reg_combinations, false)
    &&& s.input_combinations@ == combinations_of(a.reg_combinations, true)
}

fn larger(a: usize, b: usize) -> (r: usize)
    ensures
        r == if a > b {
            a
        } else {
            b
        },
{
    if a > b {
        a
    } else {
        b
    }
}

/// The state with which a run in a mode and with some settings starts.
pub fn new_state(args: &Args, mode: MainMode) -> (s: AppState)
    ensures
        s.wf(),
        starts(args@, mode, s),
        s.holding_label@.len() == args.holding_count,
{
    let h: usize = args.holding_count;
    let n: usize = args.input_count;
    let max: usize = larger(larger(h, args.coil_count), larger(args.discrete_count, n));
    let is_tcp: bool = match mode {
        MainMode::TcpServer | MainMode::TcpClient | MainMode::TcpMonitor => true,
        _ => false,
    };
    let mut bars: Vec<Vec<u16>> = Vec::new();
    for i in 0..max
        invariant
            crate::state::bars(bars@) == repeated(Seq::<u16>::empty(), i as int),
    {
        let ghost before = bars@;
        let empty: Vec<u16> = Vec::new();
        assert(empty@ =~= Seq::<u16>::empty());
        bars.push(empty);
        assert(crate::state::bars(bars@) =~= crate::state::bars(before).push(Seq::empty()));
        assert(crate::state::bars(bars@) =~= repeated(Seq::<u16>::empty(), i + 1));
    }
    let holding_label = build_labels(&args.labels, h);
    proof {
        lemma_labels_len(args@.labels, h as int);
    }
    assert(crate::text::texts(holding_label@).len() == holding_label@.len());
    let read_enabled: [bool; 4] = [true, false, false, false];
    assert(read_enabled@ =~= seq![true, false, false, false]);
    AppState {
        holding: repeat(0, h),
        holding_label,
        coils: repeat(false, args.coil_count),
        discrete: repeat(false, args.discrete_count),
        input_registers: repeat(0, n),
        last_frame: None,
        is_tcp,
        monitor: MonitorStats::default(),
        stability_test_running: false,
        stability_stats: (0, 0, 0),
        reg_change_history: Vec::new(),
        reg_just_changed: repeat(false, max),
        reg_change_direction: repeat(ChangeDirection::Up, max),
        holding_change_enabled: repeat(false, h),
        input_change_enabled: repeat(false, n),
        holding_change_patterns: repeat(RegChangePattern::Random, h),
        input_change_patterns: repeat(RegChangePattern::Random, n),
        holding_pattern_freqs: repeat(DOUBLE_ONE, h),
        input_pattern_freqs: repeat(DOUBLE_ONE, n),
        holding_pattern_phases: repeat(DOUBLE_ZERO, h),
        input_pattern_phases: repeat(DOUBLE_ZERO, n),
        read_enabled,
        slave_scan_result: None,
        slave_scan_running: false,
        reg_bar_history: bars,
        reg_format: RegDataFormat::default(),
        swap_bytes: false,
        swap_words: false,
        holding_swap_bytes: build_switches(&args.swap_bytes_reg, false),
        holding_swap_words: build_switches(&args.swap_words_reg, false),
        input_swap_bytes: build_switches(&args.swap_bytes_reg, true),
        input_swap_words: build_switches(&args.swap_words_reg, true),
        holding_combinations: build_combinations(&args.reg_combinations, false),
        input_combinations: build_combinations(&args.reg_combinations, true),
    }
}

/// A server serves every register that it was told to offer.
pub proof fn law_server_has_what_it_offers(
    a: crate::args::Settings,
    mode: MainMode,
    s: AppState,
)
    requires
        starts(a, mode, s),
    ensures
        s.holding@.len() == a.holding_count,
        s.coils@.len() == a.coil_count,
        s.discrete@.len() == a.discrete_count,
        s.input_registers@.len() == a.input_count,
{
}

/// There are as many notes as registers.
pub proof fn lemma_labels_len(list: Seq<(Seq<char>, Seq<char>)>, n: int)
    requires
        0 <= n,
    ensures
        labels_of(list, n).len() == n,
    decreases list.len(),
{
    if list.len() > 0 {
        lemma_labels_len(list.drop_last(), n);
    }
}

/// The notes on registers that are saved with a profile: those that are not
/// empty, by their addresses, from an address on.
pub open spec fn saved_labels(labels: Seq<Seq<char>>, from: int) -> Seq<(Seq<char>, Seq<char>)>
    decreases labels.len() - from,
{
    if from >= labels.len() {
        Seq::empty()
    } else if labels[from].len() == 0 {
        saved_labels(labels, from + 1)
    } else {
        seq![(crate::numeral::decimal(from as nat), labels[from])] + saved_labels(
            labels,
            from + 1,
        )
    }
}

/// The notes on registers that are saved with a profile.
pub fn save_labels(labels: &Vec<String>) -> (r: Vec<(String, String)>)
    ensures
        crate::args::pairs(r@) == saved_labels(crate::text::texts(labels@), 0),
{
    let ghost all = crate::text::texts(labels@);
    let n: usize = labels.len();
    let mut r: Vec<(String, String)> = Vec::new();
    assert(crate::args::pairs(r@) =~= Seq::<(Seq<char>, Seq<char>)>::empty());
    assert(crate::args::pairs(r@) + saved_labels(all, 0) =~= saved_labels(all, 0));
    for i in 0..n
        invariant
            n == labels@.len(),
            all == crate::text::texts(labels@),
            crate::args::pairs(r@) + saved_labels(all, i as int) == saved_labels(all, 0),
    {
        let ghost before = r@;
        if chars_of(labels[i].as_str()).len() > 0 {
            let pair = (crate::numeral::decimal_text(i as u128), labels[i].clone());
            let ghost p = (pair.0@, pair.1@);
            r.push(pair);
            assert(crate::args::pairs(r@) =~= crate::args::pairs(before).push(p));
            assert(crate::args::pairs(r@) + saved_labels(all, i + 1) =~= crate::args::pairs(before)
                + saved_labels(all, i as int));
        }
    }
    assert(crate::args::pairs(r@) + saved_labels(all, n as int) =~= crate::args::pairs(r@));
    r
}

/// Reading back the pairs from an address on fills in the notes from there on.
proof fn lemma_labels_fill(
    done: Seq<(Seq<char>, Seq<char>)>,
    labels: Seq<Seq<char>>,
    from: int,
)
    requires
        0 <= from <= labels.len() <= usize::MAX,
        labels_of(done, labels.len() as int) == Seq::new(
            labels.len(),
            |i: int|
                if i < from {
                    labels[i]
                } else {
                    Seq::<char>::empty()
                },
        ),
    ensures
        labels_of(done + saved_labels(labels, from), labels.len() as int) == labels,
    decreases labels.len() - from,
{
    let n = labels.len() as int;
    if from >= labels.len() {
        assert(done + saved_labels(labels, from) =~= done);
        assert(labels_of(done, n) =~= labels);
    } else {
        let so_far = labels_of(done, n);
        let goal = Seq::new(
            labels.len(),
            |i: int|
                if i < from + 1 {
                    labels[i]
                } else {
                    Seq::<char>::empty()
                },
        );
        if labels[from].len() == 0 {
            assert(labels[from] =~= Seq::<char>::empty());
            assert(so_far =~= goal);
            lemma_labels_fill(done, labels, from + 1);
        } else {
            let p = (crate::numeral::decimal(from as nat), labels[from]);
            let more = done.push(p);
            crate::numeral::lemma_decimal_read(from as nat, usize::MAX as nat);
            assert(more.drop_last() =~= done);
            assert(labels_of(more, n) =~= goal);
            lemma_labels_fill(more, labels, from + 1);
            assert(done + saved_labels(labels, from) =~= more + saved_labels(labels, from + 1));
        }
    }
}

/// The notes that a profile was saved with are those with which a run of that
/// profile starts.
pub proof fn law_saved_labels_load(labels: Seq<Seq<char>>)
    requires
        labels.len() <= usize::MAX,
    ensures
        labels_of(saved_labels(labels, 0), labels.len() as int) == labels,
{
    let none = Seq::<(Seq<char>, Seq<char>)>::empty();
    assert(labels_of(none, labels.len() as int) =~= Seq::new(
        labels.len(),
        |i: int|
            if i < 0 {
                labels[i]
            } else {
                Seq::<char>::empty()
            },
    ));
    lemma_labels_fill(none, labels, 0);
    assert(none + saved_labels(labels, 0) =~= saved_labels(labels, 0));
}

/// The pair that is saved for the format of a register.
pub open spec fn saved_pair(k: usize, f: RegDataFormat, input: bool) -> (Seq<char>, Seq<char>) {
    (
        if input {
            "i:"@ + crate::numeral::decimal(k as nat)
        } else {
            crate::numeral::decimal(k as nat)
        },
        crate::format::label_of(f),
    )
}

/// The pairs that are saved for the formats of some registers.
pub open spec fn saved_formats(
    keys: Seq<usize>,
    m: Map<usize, RegDataFormat>,
    input: bool,
) -> Seq<(Seq<char>, Seq<char>)> {
    Seq::new(keys.len(), |i: int| saved_pair(keys[i], m[keys[i]], input))
}

fn push_formats(
    out: &mut Vec<(String, String)>,
    m: &HashMap<usize, RegDataFormat>,
    input: bool,
)
    ensures
        exists|keys: Seq<usize>| #[trigger]
            crate::listing::is_listing(keys, m@) && crate::args::pairs(final(out)@)
                == crate::args::pairs(old(out)@) + saved_formats(keys, m@, input),
{
    broadcast use vstd::std_specs::hash::group_hash_axioms;

    let keys: Vec<usize> = addresses_of(m);
    let n: usize = keys.len();
    let ghost all = saved_formats(keys@, m@, input);
    assert(crate::args::pairs(out@) + all.take(0) =~= crate::args::pairs(out@));
    for i in 0..n
        invariant
            n == keys@.len(),
            crate::listing::is_listing(keys@, m@),
            all == saved_formats(keys@, m@, input),
            crate::args::pairs(out@) == crate::args::pairs(old(out)@) + all.take(i as int),
    {
        broadcast use vstd::std_specs::hash::group_hash_axioms;

        let k: usize = keys[i];
        assert(keys@.contains(k));
        match m.get(&k) {
            Some(f) => {
                let mut key = String::new();
                if input {
                    key.append("i:");
                }
                crate::numeral::push_decimal(&mut key, k as u128);
                let pair = (key, f.short_label());
                let ghost p = (pair.0@, pair.1@);
                assert(p.0 =~= saved_pair(k, m@[k], input).0);
                assert(p == all[i as int]);
                let ghost before = out@;
                out.push(pair);
                assert(crate::args::pairs(out@) =~= crate::args::pairs(before).push(p));
                assert(all.take(i + 1) =~= all.take(i as int).push(p));
            },
            None => {
                assert(false);
            },
        }
    }
    assert(all.take(n as int) =~= all);
}

/// The formats of single registers that are saved with a profile, those of the
/// holding registers first, each table in no particular order.
pub fn save_combinations(
    holding: &HashMap<usize, RegDataFormat>,
    input: &HashMap<usize, RegDataFormat>,
) -> (r: Vec<(String, String)>)
    ensures
        exists|h: Seq<usize>, n: Seq<usize>| #[trigger]
            crate::listing::is_listing(h, holding@) && #[trigger] crate::listing::is_listing(
                n,
                input@,
            ) && crate::args::pairs(r@) == saved_formats(h, holding@, false) + saved_formats(
                n,
                input@,
                true,
            ),
{
    let mut r: Vec<(String, String)> = Vec::new();
    assert(crate::args::pairs(r@) =~= Seq::<(Seq<char>, Seq<char>)>::empty());
    push_formats(&mut r, holding, false);
    let ghost h = choose|keys: Seq<usize>| #[trigger]
        crate::listing::is_listing(keys, holding@) && crate::args::pairs(r@) == saved_formats(
            keys,
            holding@,
            false,
        );
    assert(crate::args::pairs(r@) =~= saved_formats(h, holding@, false));
    push_formats(&mut r, input, true);
    r
}

/// Whether the label of a format tells all of it.
pub open spec fn label_tells(f: RegDataFormat) -> bool {
    crate::format::shows_width(f.data_type) || f.width is Bits16
}

proof fn lemma_saved_key(k: usize, f: RegDataFormat, input: bool)
    ensures
        key_address(saved_pair(k, f, input).0, input) == Some(k as nat),
        key_address(saved_pair(k, f, input).0, !input) is None,
{
    reveal_strlit("i:");
    let d = crate::numeral::decimal(k as nat);
    crate::numeral::lemma_decimal_read(k as nat, usize::MAX as nat);
    crate::numeral::lemma_numeral(k as nat, 10);
    if input {
        let s = "i:"@ + d;
        assert(s.skip(2) =~= d);
        assert(s.subrange(0, 2) =~= "i:"@);
        assert(crate::text::starts_with(s, "i:"@));
    } else {
        assert(!crate::text::starts_with(d, "i:"@)) by {
            if crate::text::starts_with(d, "i:"@) {
                assert(d.subrange(0, 2)[0] == d[0]);
                assert(crate::numeral::is_digit(d[0], 10));
            }
        }
    }
}

/// Reading back saved pairs puts in the formats of the registers of their own
/// table, and nothing for the other.
proof fn lemma_formats_read(
    done: Seq<(Seq<char>, Seq<char>)>,
    keys: Seq<usize>,
    m: Map<usize, RegDataFormat>,
    input: bool,
    asked: bool,
)
    requires
        forall|i: int|
            0 <= i < keys.len() ==> label_tells(#[trigger] m[keys[i]]) && m[keys[i]]
                != crate::format::plain_format(),
    ensures
        ({
            let before = combinations_of(done, asked);
            let after = combinations_of(done + saved_formats(keys, m, input), asked);
            if input != asked {
                after == before
            } else {
                &&& forall|k: usize| #[trigger]
                    after.contains_key(k) <==> before.contains_key(k) || keys.contains(k)
                &&& forall|k: usize|
                    after.contains_key(k) ==> #[trigger] after[k] == if keys.contains(k) {
                        m[k]
                    } else {
                        before[k]
                    }
            }
        }),
    decreases keys.len(),
{
    let all = saved_formats(keys, m, input);
    if keys.len() == 0 {
        assert(done + all =~= done);
    } else {
        let rest = keys.drop_last();
        let k = keys.last();
        assert(m[keys[keys.len() - 1]] == m[k]);
        assert forall|i: int| 0 <= i < rest.len() implies label_tells(#[trigger] m[rest[i]])
            && m[rest[i]] != crate::format::plain_format() by {
            assert(m[keys[i]] == m[rest[i]]);
        }
        lemma_formats_read(done, rest, m, input, asked);
        let list = done + all;
        assert(list.drop_last() =~= done + saved_formats(rest, m, input));
        assert(list.last() == saved_pair(k, m[k], input));
        lemma_saved_key(k, m[k], input);
        crate::args::law_label_stands_for_format(m[k]);
        let mid = combinations_of(list.drop_last(), asked);
        if input == asked {
            assert(combinations_of(list, asked) == mid.insert(k, m[k]));
        } else {
            assert(combinations_of(list, asked) == mid);
        }
        assert forall|x: usize| keys.contains(x) <==> rest.contains(x) || x == k by {
            if rest.contains(x) {
                let i = choose|i: int| 0 <= i < rest.len() && rest[i] == x;
                assert(keys[i] == x);
            }
            if keys.contains(x) {
                let i = choose|i: int| 0 <= i < keys.len() && keys[i] == x;
                if i < keys.len() - 1 {
                    assert(rest[i] == x);
                }
            }
            if x == k {
                assert(keys[keys.len() - 1] == x);
            }
        }
    }
}

/// The formats of single registers that a profile was saved with are those with
/// which a run of that profile starts, in whatever order they were saved, as far
/// as a label tells a format.
pub proof fn law_saved_combinations_load(
    h: Seq<usize>,
    n: Seq<usize>,
    holding: Map<usize, RegDataFormat>,
    input: Map<usize, RegDataFormat>,
)
    requires
        crate::listing::is_listing(h, holding),
        crate::listing::is_listing(n, input),
        forall|k: usize| #[trigger]
            holding.contains_key(k) ==> label_tells(holding[k]) && holding[k]
                != crate::format::plain_format(),
        forall|k: usize| #[trigger]
            input.contains_key(k) ==> label_tells(input[k]) && input[k]
                != crate::format::plain_format(),
    ensures
        combinations_of(saved_formats(h, holding, false) + saved_formats(n, input, true), false)
            == holding,
        combinations_of(saved_formats(h, holding, false) + saved_formats(n, input, true), true)
            == input,
{
    let none = Seq::<(Seq<char>, Seq<char>)>::empty();
    let a = saved_formats(h, holding, false);
    let b = saved_formats(n, input, true);
    assert forall|i: int| 0 <= i < h.len() implies label_tells(#[trigger] holding[h[i]])
        && holding[h[i]] != crate::format::plain_format() by {
        assert(h.contains(h[i]));
    }
    assert forall|i: int| 0 <= i < n.len() implies label_tells(#[trigger] input[n[i]])
        && input[n[i]] != crate::format::plain_format() by {
        assert(n.contains(n[i]));
    }
    assert(none + a =~= a);
    lemma_formats_read(none, h, holding, false, false);
    lemma_formats_read(none, h, holding, false, true);
    lemma_formats_read(a, n, input, true, false);
    lemma_formats_read(a, n, input, true, true);
    assert(combinations_of(a + b, false) =~= holding);
    assert(combinations_of(a + b, true) =~= input);
}

} // verus!
