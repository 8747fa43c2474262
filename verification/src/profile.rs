//! Profiles: named settings, how they are listed and what is said of them.
use crate::args::{main_mode_name, Args, MainMode, Settings};
use crate::listing::sort_names;
use crate::numeral::push_decimal;
use crate::text::{begins, holds, same, to_ascii_lower, upper};
use vstd::prelude::*;

verus! {

/// The name under which the name of the default profile is kept, as if it were
/// the mode of a profile.
pub const DEFAULT_KEY: &'static str = "__default__";

/// The profiles of a file.
#[derive(Debug)]
pub struct Profiles {
    pub entries: Vec<(String, Args)>,
}

/// The names of entries.
pub open spec fn entry_names(v: Seq<(String, Args)>) -> Seq<Seq<char>> {
    Seq::new(v.len(), |i: int| v[i].0@)
}

/// What entries say, by their names.
pub open spec fn stored(v: Seq<(String, Args)>) -> Map<Seq<char>, Settings>
    decreases v.len(),
{
    if v.len() == 0 {
        Map::empty()
    } else {
        stored(v.drop_last()).insert(v.last().0@, v.last().1@)
    }
}

impl View for Profiles {
    type V = Map<Seq<char>, Settings>;

    open spec fn view(&self) -> Map<Seq<char>, Settings> {
        stored(self.entries@)
    }
}

impl Profiles {
    /// Whether no name stands twice.
    pub open spec fn wf(&self) -> bool {
        entry_names(self.entries@).no_duplicates()
    }
}

/// A name is that of a profile if an entry has it, and the entry says what is
/// known of it.
proof fn lemma_stored(v: Seq<(String, Args)>, k: Seq<char>)
    requires
        entry_names(v).no_duplicates(),
    ensures
        stored(v).contains_key(k) <==> entry_names(v).contains(k),
        forall|i: int|
            0 <= i < v.len() && v[i].0@ == k ==> stored(v).contains_key(k) && stored(v)[k] == (
            #[trigger] v[i]).1@,
    decreases v.len(),
{
    let names = entry_names(v);
    if v.len() > 0 {
        let w = v.drop_last();
        assert(entry_names(w) =~= names.drop_last());
        assert forall|i: int, j: int|
            0 <= i < w.len() && 0 <= j < w.len() && i != j implies entry_names(w)[i] != entry_names(
            w,
        )[j] by {
            assert(names[i] != names[j]);
        }
        lemma_stored(w, k);
        let last = v.len() - 1;
        if names.contains(k) {
            let i = choose|i: int| 0 <= i < names.len() && names[i] == k;
            if i < last {
                assert(entry_names(w)[i] == k);
            }
        }
        if entry_names(w).contains(k) {
            let i = choose|i: int| 0 <= i < w.len() && entry_names(w)[i] == k;
            assert(names[i] == k);
        }
        assert(names[last] == v.last().0@);
        assert forall|i: int| 0 <= i < v.len() && v[i].0@ == k implies stored(v).contains_key(k)
            && stored(v)[k] == (#[trigger] v[i]).1@ by {
            if i < last {
                assert(names[i] != names[last]);
                assert(w[i].0@ == k);
            }
        }
    }
}

impl Profiles {
    /// No profiles.
    pub fn new() -> (r: Profiles)
        ensures
            r.wf(),
            r@ == Map::<Seq<char>, Settings>::empty(),
    {
        Profiles { entries: Vec::new() }
    }

    /// The place of the entry of a name.
    fn find(&self, name: &str) -> (r: Option<usize>)
        requires
            self.wf(),
        ensures
            match r {
                Some(i) => i < self.entries@.len() && self.entries@[i as int].0@ == name@
                    && self@.contains_key(name@) && self@[name@] == self.entries@[i as int].1@,
                None => !self@.contains_key(name@) && !entry_names(self.entries@).contains(name@),
            },
    {
        proof {
            lemma_stored(self.entries@, name@);
        }
        let n: usize = self.entries.len();
        for i in 0..n
            invariant
                n == self.entries@.len(),
                self.wf(),
                forall|j: int| 0 <= j < i ==> (#[trigger] self.entries@[j]).0@ != name@,
        {
            if same(self.entries[i].0.as_str(), name) {
                proof {
                    lemma_stored(self.entries@, name@);
                }
                return Some(i);
            }
        }
        None
    }

    /// The settings of a profile.
    pub fn get(&self, name: &str) -> (r: Option<&Args>)
        requires
            self.wf(),
        ensures
            match r {
                Some(a) => self@.contains_key(name@) && a@ == self@[name@],
                None => !self@.contains_key(name@),
            },
    {
        match self.find(name) {
            Some(i) => Some(&self.entries[i].1),
            None => None,
        }
    }

    /// Keeps settings under a name, in place of those that were kept there.
    pub fn put(&mut self, name: &str, args: Args)
        requires
            old(self).wf(),
        ensures
            final(self).wf(),
            final(self)@ == old(self)@.insert(name@, args@),
    {
        let ghost before = self.entries@;
        match self.find(name) {
            Some(i) => {
                let entry = (name.to_string(), args);
                let ghost e = entry;
                self.entries.set(i, entry);
                proof {
                    let after = self.entries@;
                    assert(after == before.update(i as int, e));
                    assert(entry_names(after) =~= entry_names(before));
                    lemma_same_entries(before, after, i as int);
                }
            },
            None => {
                let entry = (name.to_string(), args);
                let ghost e = entry;
                self.entries.push(entry);
                proof {
                    let after = self.entries@;
                    assert(after.drop_last() =~= before);
                    let names = entry_names(before);
                    assert(entry_names(after) =~= names.push(name@));
                    assert forall|i: int, j: int|
                        0 <= i < after.len() && 0 <= j < after.len() && i != j implies entry_names(
                        after,
                    )[i] != entry_names(after)[j] by {
                        if i == before.len() {
                            assert(names.contains(names[j]));
                        } else if j == before.len() {
                            assert(names.contains(names[i]));
                        }
                    }
                }
            },
        }
    }

    /// Takes a profile out.
    pub fn remove(&mut self, name: &str)
        requires
            old(self).wf(),
        ensures
            final(self).wf(),
            final(self)@ == old(self)@.remove(name@),
    {
        let ghost before = self.entries@;
        match self.find(name) {
            Some(i) => {
                self.entries.remove(i);
                proof {
                    let after = self.entries@;
                    assert(after == before.remove(i as int));
                    lemma_without_entry(before, after, i as int);
                }
            },
            None => {
                assert(self@.remove(name@) =~= self@);
            },
        }
    }
}

/// Entries of which one says something else.
proof fn lemma_same_entries(a: Seq<(String, Args)>, b: Seq<(String, Args)>, i: int)
    requires
        0 <= i < a.len(),
        entry_names(a).no_duplicates(),
        entry_names(b) == entry_names(a),
        b == a.update(i, b[i]),
    ensures
        stored(b) == stored(a).insert(b[i].0@, b[i].1@),
{
    let names = entry_names(a);
    assert(names[i] == a[i].0@);
    assert(entry_names(b)[i] == b[i].0@);
    assert forall|k: Seq<char>| #[trigger]
        stored(b).contains_key(k) <==> stored(a).insert(b[i].0@, b[i].1@).contains_key(k) by {
        lemma_stored(a, k);
        lemma_stored(b, k);
        assert(names.contains(names[i]));
    }
    assert forall|k: Seq<char>| #[trigger]
        stored(b).contains_key(k) implies stored(b)[k] == stored(a).insert(b[i].0@, b[i].1@)[k] by {
        lemma_stored(a, k);
        lemma_stored(b, k);
        let j = choose|j: int| 0 <= j < names.len() && names[j] == k;
        assert(entry_names(b)[j] == b[j].0@);
        assert(entry_names(a)[j] == a[j].0@);
        if j == i {
            assert(b[j].1@ == stored(b)[k]);
        } else {
            assert(names[j] != names[i]);
            assert(a[j].1@ == stored(a)[k]);
            assert(b[j].1@ == stored(b)[k]);
        }
    }
    assert(stored(b) =~= stored(a).insert(b[i].0@, b[i].1@));
}

/// Entries without one of them.
proof fn lemma_without_entry(a: Seq<(String, Args)>, b: Seq<(String, Args)>, i: int)
    requires
        0 <= i < a.len(),
        entry_names(a).no_duplicates(),
        b == a.remove(i),
    ensures
        entry_names(b).no_duplicates(),
        stored(b) == stored(a).remove(a[i].0@),
{
    let names = entry_names(a);
    let rest = entry_names(b);
    assert(rest =~= names.remove(i));
    assert forall|x: int, y: int|
        0 <= x < rest.len() && 0 <= y < rest.len() && x != y implies rest[x] != rest[y] by {
        let p = if x < i {
            x
        } else {
            x + 1
        };
        let q = if y < i {
            y
        } else {
            y + 1
        };
        assert(rest[x] == names[p]);
        assert(rest[y] == names[q]);
    }
    assert forall|k: Seq<char>|
        {
            &&& #[trigger] stored(b).contains_key(k) <==> stored(a).remove(a[i].0@).contains_key(k)
            &&& stored(b).contains_key(k) ==> stored(b)[k] == stored(a)[k]
        } by {
        lemma_stored(a, k);
        lemma_stored(b, k);
        if rest.contains(k) {
            let x = choose|x: int| 0 <= x < rest.len() && rest[x] == k;
            let p = if x < i {
                x
            } else {
                x + 1
            };
            assert(names[p] == k);
            assert(names[p] != names[i]);
            assert(b[x] == a[p]);
            assert(a[p].1@ == stored(a)[k]);
            assert(b[x].1@ == stored(b)[k]);
        }
        if names.contains(k) && k != a[i].0@ {
            let p = choose|p: int| 0 <= p < names.len() && names[p] == k;
            let x = if p < i {
                p
            } else {
                p - 1
            };
            assert(p != i);
            assert(rest[x] == k);
        }
    }
    assert(stored(b) =~= stored(a).remove(a[i].0@));
}

/// The names of all profiles, in their order.
pub fn load_profile_list(p: &Profiles) -> (r: Vec<String>)
    ensures
        crate::listing::is_sorted_copy(crate::text::texts(r@), entry_names(p.entries@)),
{
    let mut names: Vec<String> = Vec::new();
    let n: usize = p.entries.len();
    for i in 0..n
        invariant
            n == p.entries@.len(),
            names@.len() == i,
            forall|j: int| 0 <= j < i ==> (#[trigger] names@[j])@ == p.entries@[j].0@,
    {
        names.push(p.entries[i].0.clone());
    }
    assert(crate::text::texts(names@) =~= entry_names(p.entries@));
    sort_names(&names)
}

/// The settings of a profile.
pub fn load_profile_args(p: &Profiles, name: &str) -> (r: Option<Args>)
    requires
        p.wf(),
    ensures
        match r {
            Some(a) => p@.contains_key(name@) && a@ == p@[name@],
            None => !p@.contains_key(name@),
        },
{
    match p.get(name) {
        Some(a) => Some(a.clone()),
        None => None,
    }
}

/// The settings under which the name of the default profile is kept.
pub open spec fn default_mark(name: Seq<char>) -> Settings {
    Settings { main_mode: name, ..crate::args::default_settings() }
}

/// Keeps the name of the default profile.
pub fn save_default_profile(p: &mut Profiles, name: &str)
    requires
        old(p).wf(),
    ensures
        final(p).wf(),
        final(p)@ == old(p)@.insert(DEFAULT_KEY@, default_mark(name@)),
{
    let mut args = Args::default();
    args.main_mode = name.to_string();
    p.put(DEFAULT_KEY, args);
}

/// The name of the default profile, if one is kept.
pub fn load_default_profile(p: &Profiles) -> (r: Option<String>)
    requires
        p.wf(),
    ensures
        match r {
            Some(s) => p@.contains_key(DEFAULT_KEY@) && s@ == p@[DEFAULT_KEY@].main_mode,
            None => !p@.contains_key(DEFAULT_KEY@),
        },
{
    match p.get(DEFAULT_KEY) {
        Some(a) => Some(a.main_mode.clone()),
        None => None,
    }
}

/// The name of the default profile is read as it was kept, and keeping it leaves
/// all profiles as they were.
pub proof fn law_default_profile_is_kept(p: Map<Seq<char>, Settings>, name: Seq<char>, k: Seq<char>)
    ensures
        ({
            let q = p.insert(DEFAULT_KEY@, default_mark(name));
            &&& q.contains_key(DEFAULT_KEY@)
            &&& q[DEFAULT_KEY@].main_mode == name
            &&& k != DEFAULT_KEY@ ==> (q.contains_key(k) <==> p.contains_key(k))
            &&& k != DEFAULT_KEY@ && p.contains_key(k) ==> q[k] == p[k]
        }),
{
}

/// Whether the mode of a profile goes over TCP by its name.
pub open spec fn named_tcp(a: Settings) -> bool {
    crate::text::has_infix(crate::text::ascii_lower(a.main_mode), "tcp"@)
}

/// Whether the mode of a profile goes over a serial line by its name.
pub open spec fn named_rtu(a: Settings) -> bool {
    crate::text::has_infix(crate::text::ascii_lower(a.main_mode), "rtu"@)
}

/// Whether a word stands in the name of the mode of a profile, in small letters.
pub fn is_named(args: &Args, what: &str) -> (r: bool)
    ensures
        r == crate::text::has_infix(crate::text::ascii_lower(args@.main_mode), what@),
{
    let t = to_ascii_lower(args.main_mode.as_str());
    holds(t.as_str(), what)
}

/// The name of the monitor that goes the way of a profile.
pub open spec fn monitor_label(a: Settings) -> Seq<char> {
    if named_tcp(a) {
        "tcp-monitor"@
    } else {
        "rtu-monitor"@
    }
}

/// The name of the monitor that goes the way of a profile.
pub fn profile_monitor_mode_label(args: &Args) -> (r: &'static str)
    ensures
        r@ == monitor_label(args@),
{
    if is_named(args, "tcp") {
        "tcp-monitor"
    } else {
        "rtu-monitor"
    }
}

/// The short form of a profile's mode.
pub open spec fn short_mode(a: Settings) -> Seq<char> {
    let t = crate::text::ascii_lower(a.main_mode);
    if t == "tcp-server"@ {
        "TCP-S"@
    } else if t == "tcp-client"@ {
        "TCP-C"@
    } else if t == "rtu-server"@ {
        "RTU-S"@
    } else if t == "rtu-client"@ {
        "RTU-C"@
    } else {
        a.main_mode
    }
}

/// A profile in one line.
pub open spec fn brief(a: Settings) -> Seq<char> {
    if named_tcp(a) {
        short_mode(a) + " | port "@ + crate::numeral::decimal(a.tcp_port as nat) + " | slv "@
            + crate::numeral::decimal(a.unit as nat) + " | hld "@ + crate::numeral::decimal(
            a.holding_count as nat,
        )
    } else {
        short_mode(a) + " | "@ + a.device + " | "@ + crate::numeral::decimal(a.baudrate as nat)
            + "-"@ + crate::text::uppered(a.parity) + crate::numeral::decimal(a.databits as nat)
            + crate::numeral::decimal(a.stopbits as nat) + " | slv "@ + crate::numeral::decimal(
            a.unit as nat,
        ) + " | hld "@ + crate::numeral::decimal(a.holding_count as nat)
    }
}

fn short_mode_text(args: &Args) -> (r: String)
    ensures
        r@ == short_mode(args@),
{
    let t = to_ascii_lower(args.main_mode.as_str());
    let t = t.as_str();
    if same(t, "tcp-server") {
        "TCP-S".to_string()
    } else if same(t, "tcp-client") {
        "TCP-C".to_string()
    } else if same(t, "rtu-server") {
        "RTU-S".to_string()
    } else if same(t, "rtu-client") {
        "RTU-C".to_string()
    } else {
        args.main_mode.clone()
    }
}

/// A profile in one line.
pub fn profile_pick_brief(args: &Args) -> (r: String)
    ensures
        r@ == brief(args@),
{
    let mut s = short_mode_text(args);
    if is_named(args, "tcp") {
        s.append(" | port ");
        push_decimal(&mut s, args.tcp_port as u128);
    } else {
        s.append(" | ");
        s.append(args.device.as_str());
        s.append(" | ");
        push_decimal(&mut s, args.baudrate as u128);
        s.append("-");
        s.append(upper(args.parity.as_str()).as_str());
        push_decimal(&mut s, args.databits as u128);
        push_decimal(&mut s, args.stopbits as u128);
    }
    s.append(" | slv ");
    push_decimal(&mut s, args.unit as u128);
    s.append(" | hld ");
    push_decimal(&mut s, args.holding_count as u128);
    s
}

/// With what the name of a profile's mode must start to be offered for a mode.
pub open spec fn pick_start(m: MainMode) -> Seq<char> {
    match m {
        MainMode::TcpMonitor => "tcp-"@,
        MainMode::RtuMonitor => "rtu-"@,
        _ => crate::args::mode_name(m),
    }
}

/// Whether a profile is offered for a mode, or for none in particular.
pub open spec fn offered(name: Seq<char>, a: Settings, mode: Option<MainMode>) -> bool {
    &&& name != DEFAULT_KEY@
    &&& mode matches Some(m) ==> crate::text::starts_with(a.main_mode, pick_start(m))
}

/// Whether a profile is offered to a monitor.
pub open spec fn offered_to_monitor(name: Seq<char>, a: Settings, mode: Option<MainMode>) -> bool {
    &&& name != DEFAULT_KEY@
    &&& match mode {
        Some(MainMode::TcpMonitor) => named_tcp(a),
        Some(MainMode::RtuMonitor) => named_rtu(a),
        _ => true,
    }
}

/// The names of the entries that are offered, for a monitor or not.
pub open spec fn offered_names(
    v: Seq<(String, Args)>,
    mode: Option<MainMode>,
    monitor: bool,
) -> Seq<Seq<char>>
    decreases v.len(),
{
    if v.len() == 0 {
        Seq::empty()
    } else {
        let before = offered_names(v.drop_last(), mode, monitor);
        let e = v.last();
        if (if monitor {
            offered_to_monitor(e.0@, e.1@, mode)
        } else {
            offered(e.0@, e.1@, mode)
        }) {
            before.push(e.0@)
        } else {
            before
        }
    }
}

fn is_offered(name: &str, args: &Args, mode: Option<MainMode>) -> (r: bool)
    ensures
        r == offered(name@, args@, mode),
{
    if same(name, DEFAULT_KEY) {
        return false;
    }
    match mode {
        None => true,
        Some(m) => {
            let start: &'static str = match m {
                MainMode::TcpMonitor => "tcp-",
                MainMode::RtuMonitor => "rtu-",
                _ => main_mode_name(m),
            };
            begins(args.main_mode.as_str(), start)
        },
    }
}

fn is_offered_to_monitor(name: &str, args: &Args, mode: Option<MainMode>) -> (r: bool)
    ensures
        r == offered_to_monitor(name@, args@, mode),
{
    if same(name, DEFAULT_KEY) {
        return false;
    }
    match mode {
        Some(MainMode::TcpMonitor) => is_named(args, "tcp"),
        Some(MainMode::RtuMonitor) => is_named(args, "rtu"),
        _ => true,
    }
}

/// What a list of profiles to choose from shows: their names, in their order,
/// and each in one line.
#[derive(Debug)]
pub struct PickList {
    pub names: Vec<String>,
    pub briefs: Vec<String>,
}

/// Whether a list shows the profiles that are offered.
pub open spec fn lists(
    p: Profiles,
    mode: Option<MainMode>,
    monitor: bool,
    list: PickList,
) -> bool {
    &&& crate::listing::is_sorted_copy(
        crate::text::texts(list.names@),
        offered_names(p.entries@, mode, monitor),
    )
    &&& list.briefs@.len() == list.names@.len()
    &&& forall|i: int|
        0 <= i < list.names@.len() ==> p@.contains_key((#[trigger] list.names@[i])@)
            && list.briefs@[i]@ == brief(p@[list.names@[i]@])
}

/// An offered name is that of an entry.
proof fn lemma_offered_is_stored(
    v: Seq<(String, Args)>,
    mode: Option<MainMode>,
    monitor: bool,
    k: int,
)
    requires
        entry_names(v).no_duplicates(),
        0 <= k < offered_names(v, mode, monitor).len(),
    ensures
        entry_names(v).contains(offered_names(v, mode, monitor)[k]),
        stored(v).contains_key(offered_names(v, mode, monitor)[k]),
    decreases v.len(),
{
    let w = v.drop_last();
    let names = entry_names(v);
    assert(entry_names(w) =~= names.drop_last());
    assert forall|i: int, j: int|
        0 <= i < w.len() && 0 <= j < w.len() && i != j implies entry_names(w)[i] != entry_names(
        w,
    )[j] by {
        assert(names[i] != names[j]);
    }
    let before = offered_names(w, mode, monitor);
    let x = offered_names(v, mode, monitor)[k];
    if k < before.len() {
        lemma_offered_is_stored(w, mode, monitor, k);
        let i = choose|i: int| 0 <= i < w.len() && entry_names(w)[i] == x;
        assert(names[i] == x);
    } else {
        assert(names[v.len() - 1] == x);
    }
    lemma_stored(v, x);
}

fn offered_entries(p: &Profiles, mode: Option<MainMode>, monitor: bool) -> (r: Vec<String>)
    ensures
        crate::text::texts(r@) == offered_names(p.entries@, mode, monitor),
{
    let n: usize = p.entries.len();
    let mut r: Vec<String> = Vec::new();
    assert(p.entries@.take(0) =~= Seq::<(String, Args)>::empty());
    assert(crate::text::texts(r@) =~= Seq::<Seq<char>>::empty());
    for i in 0..n
        invariant
            n == p.entries@.len(),
            crate::text::texts(r@) == offered_names(p.entries@.take(i as int), mode, monitor),
    {
        let ghost t = p.entries@.take(i + 1);
        assert(t.drop_last() =~= p.entries@.take(i as int));
        assert(t.last() == p.entries@[i as int]);
        let name = p.entries[i].0.as_str();
        let fits: bool = if monitor {
            is_offered_to_monitor(name, &p.entries[i].1, mode)
        } else {
            is_offered(name, &p.entries[i].1, mode)
        };
        if fits {
            let ghost before = r@;
            r.push(p.entries[i].0.clone());
            assert(crate::text::texts(r@) =~= crate::text::texts(before).push(
                p.entries@[i as int].0@,
            ));
        }
    }
    assert(p.entries@.take(n as int) =~= p.entries@);
    r
}

/// The profiles that are offered for a mode, or to a monitor.
pub fn load_pick_list(p: &Profiles, mode: Option<MainMode>, monitor: bool) -> (r: PickList)
    requires
        p.wf(),
    ensures
        lists(*p, mode, monitor, r),
{
    let found: Vec<String> = offered_entries(p, mode, monitor);
    let names: Vec<String> = sort_names(&found);
    let n: usize = names.len();
    let mut briefs: Vec<String> = Vec::new();
    let ghost all = offered_names(p.entries@, mode, monitor);
    let ghost order = choose|order: Seq<usize>| #[trigger]
        crate::listing::is_order(order, all) && crate::text::texts(names@)
            == crate::listing::in_order(order, all);
    for i in 0..n
        invariant
            n == names@.len(),
            p.wf(),
            all == offered_names(p.entries@, mode, monitor),
            crate::listing::is_order(order, all),
            crate::text::texts(names@) == crate::listing::in_order(order, all),
            briefs@.len() == i,
            forall|j: int|
                0 <= j < i ==> p@.contains_key((#[trigger] names@[j])@) && briefs@[j]@ == brief(
                    p@[names@[j]@],
                ),
    {
        proof {
            assert(crate::text::texts(names@)[i as int] == names@[i as int]@);
            assert(crate::text::texts(names@).len() == order.len());
            assert(order[i as int] < all.len());
            lemma_offered_is_stored(p.entries@, mode, monitor, order[i as int] as int);
        }
        match p.get(names[i].as_str()) {
            Some(a) => {
                briefs.push(profile_pick_brief(a));
            },
            None => {
                assert(false);
            },
        }
    }
    PickList { names, briefs }
}

/// The place of a profile's mode in the main menu: one of the four servers and
/// clients by its name, or one of the two monitors.
pub open spec fn menu_place(a: Settings) -> Option<int> {
    let t = crate::text::ascii_lower(a.main_mode);
    if t == "tcp-server"@ {
        Some(0)
    } else if t == "tcp-client"@ {
        Some(1)
    } else if t == "rtu-server"@ {
        Some(2)
    } else if t == "rtu-client"@ {
        Some(3)
    } else if named_tcp(a) {
        Some(4)
    } else if named_rtu(a) {
        Some(5)
    } else {
        None
    }
}

/// How many profiles have a place in the main menu.
pub open spec fn place_count(v: Seq<(String, Args)>, place: int) -> nat
    decreases v.len(),
{
    if v.len() == 0 {
        0
    } else {
        place_count(v.drop_last(), place) + (if v.last().0@ != DEFAULT_KEY@ && menu_place(
            v.last().1@,
        ) == Some(place) {
            1nat
        } else {
            0
        })
    }
}

fn menu_place_of(args: &Args) -> (r: Option<usize>)
    ensures
        match r {
            Some(i) => menu_place(args@) == Some(i as int) && i < 6,
            None => menu_place(args@) is None,
        },
{
    let t = to_ascii_lower(args.main_mode.as_str());
    let t = t.as_str();
    if same(t, "tcp-server") {
        Some(0)
    } else if same(t, "tcp-client") {
        Some(1)
    } else if same(t, "rtu-server") {
        Some(2)
    } else if same(t, "rtu-client") {
        Some(3)
    } else if is_named(args, "tcp") {
        Some(4)
    } else if is_named(args, "rtu") {
        Some(5)
    } else {
        None
    }
}

/// How many profiles there are for each mode of the main menu.
pub fn count_profiles_by_mode(p: &Profiles) -> (r: [usize; 6])
    ensures
        forall|k: int| 0 <= k < 6 ==> #[trigger] r@[k] == place_count(p.entries@, k),
{
    let mut counts: [usize; 6] = [0, 0, 0, 0, 0, 0];
    let n: usize = p.entries.len();
    assert(p.entries@.take(0) =~= Seq::<(String, Args)>::empty());
    for i in 0..n
        invariant
            n == p.entries@.len(),
            forall|k: int|
                0 <= k < 6 ==> #[trigger] counts@[k] == place_count(p.entries@.take(i as int), k),
            forall|k: int| 0 <= k < 6 ==> #[trigger] counts@[k] <= i,
    {
        let ghost t = p.entries@.take(i + 1);
        assert(t.drop_last() =~= p.entries@.take(i as int));
        assert(t.last() == p.entries@[i as int]);
        if !same(p.entries[i].0.as_str(), DEFAULT_KEY) {
            match menu_place_of(&p.entries[i].1) {
                Some(k) => {
                    counts[k] = counts[k] + 1;
                },
                None => {},
            }
        }
    }
    assert(p.entries@.take(n as int) =~= p.entries@);
    counts
}

/// What was chosen in the menu.
#[derive(Debug)]
pub struct MenuSelection {
    pub main_mode: MainMode,
    pub profile_name: Option<String>,
    /// Whether the program is to end.
    pub quit: bool,
}

impl Clone for MenuSelection {
    fn clone(&self) -> (r: MenuSelection)
        ensures
            r == *self,
    {
        MenuSelection {
            main_mode: self.main_mode,
            profile_name: match &self.profile_name {
                Some(s) => Some(s.clone()),
                None => None,
            },
            quit: self.quit,
        }
    }
}

/// Why a profile cannot be run.
#[derive(Copy, Clone, Debug, PartialEq, Eq, Structural)]
pub enum SelectError {
    /// There is no profile of that name.
    ProfileMissing,
    /// Its mode is none.
    InvalidMainMode,
}

/// The settings with which the program runs by what was chosen in the menu: those
/// of the profile that was chosen, or those where nothing was said, in the mode
/// that was chosen.
pub fn resolve_selection(p: &Profiles, sel: &MenuSelection) -> (r: Result<
    (MainMode, Args),
    SelectError,
>)
    requires
        p.wf(),
    ensures
        match (r, sel.profile_name) {
            (Ok((m, a)), Some(name)) => m == sel.main_mode && p@.contains_key(name@) && a@ == (
            Settings { main_mode: crate::args::mode_name(m), ..p@[name@] }),
            (Ok((m, a)), None) => m == sel.main_mode && a@ == (Settings {
                main_mode: crate::args::mode_name(m),
                ..crate::args::default_settings()
            }),
            (Err(e), Some(name)) => e == SelectError::ProfileMissing && !p@.contains_key(name@),
            (Err(_), None) => false,
        },
{
    let mut args = match &sel.profile_name {
        Some(name) => match p.get(name.as_str()) {
            Some(a) => a.clone(),
            None => {
                return Err(SelectError::ProfileMissing);
            },
        },
        None => Args::default(),
    };
    args.main_mode = main_mode_name(sel.main_mode).to_string();
    Ok((sel.main_mode, args))
}

/// The settings with which the program runs when it is started with the name of a
/// profile: those of the profile, in its own mode, with the file that was named.
pub fn select_profile(p: &Profiles, name: &str, config: &str) -> (r: Result<
    (MainMode, Args),
    SelectError,
>)
    requires
        p.wf(),
    ensures
        match r {
            Ok((m, a)) => p@.contains_key(name@) && crate::args::stands_for_mode(
                crate::text::ascii_lower(p@[name@].main_mode),
                m,
            ) && a@ == (Settings { config: config@, ..p@[name@] }),
            Err(SelectError::ProfileMissing) => !p@.contains_key(name@),
            Err(SelectError::InvalidMainMode) => p@.contains_key(name@) && forall|m: MainMode|
                !crate::args::stands_for_mode(
                    crate::text::ascii_lower(p@[name@].main_mode),
                    m,
                ),
        },
{
    match p.get(name) {
        Some(a) => match crate::args::parse_mainmode(a.main_mode.as_str()) {
            Ok(m) => {
                let mut args = a.clone();
                args.config = config.to_string();
                Ok((m, args))
            },
            Err(_) => Err(SelectError::InvalidMainMode),
        },
        None => Err(SelectError::ProfileMissing),
    }
}

} // verus!
