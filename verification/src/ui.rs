//! The screen while the program runs: what it remembers.
use crate::args::{mode_name, MainMode};
use crate::format::{RegDataFormat, RegDataType, RegDataWidth};
use crate::message::{Part, Piece};
use crate::state::{AppState, DoubleBits, DOUBLE_ONE};
use crate::text::same;
use crate::worker::RegCmd;
use vstd::prelude::*;

verus! {

/// A base in which a plain register is shown and entered.
#[derive(Copy, Clone, Debug, PartialEq, Eq, Structural)]
pub enum DisplayBase {
    Dec,
    Hex,
    Bin,
}

/// The format of a plain register in a base.
pub open spec fn base_format(b: DisplayBase) -> RegDataFormat {
    RegDataFormat {
        data_type: match b {
            DisplayBase::Dec => RegDataType::Uint,
            DisplayBase::Hex => RegDataType::Hex,
            DisplayBase::Bin => RegDataType::Binary,
        },
        width: RegDataWidth::Bits16,
    }
}

/// The name of a base.
pub open spec fn base_name(b: DisplayBase) -> Seq<char> {
    match b {
        DisplayBase::Dec => "Dec"@,
        DisplayBase::Hex => "Hex"@,
        DisplayBase::Bin => "Bin"@,
    }
}

impl DisplayBase {
    /// The format of a plain register in a base.
    pub fn format(self) -> (r: RegDataFormat)
        ensures
            r == base_format(self),
    {
        let data_type = match self {
            DisplayBase::Dec => RegDataType::Uint,
            DisplayBase::Hex => RegDataType::Hex,
            DisplayBase::Bin => RegDataType::Binary,
        };
        RegDataFormat { data_type, width: RegDataWidth::Bits16 }
    }

    /// The name of a base.
    pub fn name(self) -> (r: &'static str)
        ensures
            r@ == base_name(self),
    {
        match self {
            DisplayBase::Dec => "Dec",
            DisplayBase::Hex => "Hex",
            DisplayBase::Bin => "Bin",
        }
    }
}

/// A table that can be shown.
#[derive(Copy, Clone, Debug, PartialEq, Eq, Structural)]
pub enum RegView {
    Holding,
    Coils,
    Discrete,
    Input,
}

/// The place of a table among the tables.
pub open spec fn view_place(v: RegView) -> int {
    match v {
        RegView::Holding => 0,
        RegView::Coils => 1,
        RegView::Discrete => 2,
        RegView::Input => 3,
    }
}

/// The name of a table.
pub open spec fn view_name(v: RegView) -> Seq<char> {
    match v {
        RegView::Holding => "Holding"@,
        RegView::Coils => "Coils"@,
        RegView::Discrete => "Discrete"@,
        RegView::Input => "Input"@,
    }
}

/// The table behind a table, and the first behind the last.
pub open spec fn view_after(v: RegView) -> RegView {
    match v {
        RegView::Holding => RegView::Coils,
        RegView::Coils => RegView::Discrete,
        RegView::Discrete => RegView::Input,
        RegView::Input => RegView::Holding,
    }
}

impl RegView {
    /// The place of a table among the tables.
    pub fn place(self) -> (r: usize)
        ensures
            r == view_place(self),
            r < 4,
    {
        match self {
            RegView::Holding => 0,
            RegView::Coils => 1,
            RegView::Discrete => 2,
            RegView::Input => 3,
        }
    }

    /// The name of a table.
    pub fn name(self) -> (r: &'static str)
        ensures
            r@ == view_name(self),
    {
        match self {
            RegView::Holding => "Holding",
            RegView::Coils => "Coils",
            RegView::Discrete => "Discrete",
            RegView::Input => "Input",
        }
    }

    /// The table behind a table, and the first behind the last.
    pub fn next(self) -> (r: RegView)
        ensures
            r == view_after(self),
    {
        match self {
            RegView::Holding => RegView::Coils,
            RegView::Coils => RegView::Discrete,
            RegView::Discrete => RegView::Input,
            RegView::Input => RegView::Holding,
        }
    }
}

/// Four steps go through all tables.
pub proof fn law_views_cycle(v: RegView)
    ensures
        view_after(view_after(view_after(view_after(v)))) == v,
        view_place(view_after(v)) == (view_place(v) + 1) % 4,
{
}

/// The table of registers on the screen.
#[derive(Debug)]
pub struct TablePane {
    /// In which base plain registers are shown and entered.
    pub base: DisplayBase,
    /// The address that is marked.
    pub selected: usize,
    /// The first line that is shown.
    pub scroll: usize,
    /// The table that is shown.
    pub reg_view: RegView,
    /// Whether the last values of registers are shown.
    pub show_change_bar: bool,
    /// The format of all registers.
    pub reg_format: RegDataFormat,
    /// Whether the bytes of every register are exchanged.
    pub swap_bytes: bool,
    /// Whether the registers of every value are in reverse order.
    pub swap_words: bool,
    /// Whether an address is entered to go to.
    pub goto_mode: bool,
    /// The address that is entered so far.
    pub goto_buf: String,
    /// Whether a search is entered.
    pub search_mode: bool,
    /// What is searched for.
    pub search_buf: String,
}

/// The table of registers on the screen, mathematically.
pub struct TableModel {
    pub base: DisplayBase,
    pub selected: usize,
    pub scroll: usize,
    pub reg_view: RegView,
    pub show_change_bar: bool,
    pub reg_format: RegDataFormat,
    pub swap_bytes: bool,
    pub swap_words: bool,
    pub goto_mode: bool,
    pub goto_buf: Seq<char>,
    pub search_mode: bool,
    pub search_buf: Seq<char>,
}

impl View for TablePane {
    type V = TableModel;

    open spec fn view(&self) -> TableModel {
        TableModel {
            base: self.base,
            selected: self.selected,
            scroll: self.scroll,
            reg_view: self.reg_view,
            show_change_bar: self.show_change_bar,
            reg_format: self.reg_format,
            swap_bytes: self.swap_bytes,
            swap_words: self.swap_words,
            goto_mode: self.goto_mode,
            goto_buf: self.goto_buf@,
            search_mode: self.search_mode,
            search_buf: self.search_buf@,
        }
    }
}

/// An entry on the screen.
#[derive(Debug)]
pub struct EntryPane {
    /// Whether an entry is made.
    pub edit_mode: bool,
    /// Whether the entry is the note on a register.
    pub edit_is_label: bool,
    /// Whether the entry is the name of a profile.
    pub edit_is_profile: bool,
    /// The entry so far.
    pub edit_buf: String,
}

/// An entry on the screen, mathematically.
pub struct EntryModel {
    pub edit_mode: bool,
    pub edit_is_label: bool,
    pub edit_is_profile: bool,
    pub edit_buf: Seq<char>,
}

impl View for EntryPane {
    type V = EntryModel;

    open spec fn view(&self) -> EntryModel {
        EntryModel {
            edit_mode: self.edit_mode,
            edit_is_label: self.edit_is_label,
            edit_is_profile: self.edit_is_profile,
            edit_buf: self.edit_buf@,
        }
    }
}

/// The dialog for the pattern of a register.
#[derive(Debug)]
pub struct PatternPane {
    /// Whether a pattern is chosen.
    pub open: bool,
    /// The register whose pattern is chosen.
    pub addr: usize,
    /// The table of the register.
    pub reg_type: RegView,
    /// The pattern that is marked.
    pub sel: usize,
    /// Whether a frequency is entered.
    pub editing_freq: bool,
    /// The frequency that is entered so far.
    pub freq_buf: String,
    /// The frequency that is set.
    pub freq: DoubleBits,
}

/// The dialog for the pattern of a register, mathematically.
pub struct PatternModel {
    pub open: bool,
    pub addr: usize,
    pub reg_type: RegView,
    pub sel: usize,
    pub editing_freq: bool,
    pub freq_buf: Seq<char>,
    pub freq: DoubleBits,
}

impl View for PatternPane {
    type V = PatternModel;

    open spec fn view(&self) -> PatternModel {
        PatternModel {
            open: self.open,
            addr: self.addr,
            reg_type: self.reg_type,
            sel: self.sel,
            editing_freq: self.editing_freq,
            freq_buf: self.freq_buf@,
            freq: self.freq,
        }
    }
}

/// The monitor on the screen.
#[derive(Debug)]
pub struct MonitorPane {
    /// Whether the monitor is shown beside the table.
    pub show: bool,
    /// How far the history is scrolled.
    pub scroll: usize,
    /// Whether the history takes the keys, not the statistics.
    pub focus_history: bool,
    /// The profile that is marked.
    pub list_idx: usize,
    /// Whether a profile is being chosen.
    pub picking: bool,
    /// The profile that runs.
    pub selected_profile: Option<String>,
    /// Whether the analysis of a record is shown.
    pub show_analysis: bool,
    /// The record that is analysed.
    pub analysis_idx: usize,
}

/// The monitor on the screen, mathematically.
pub struct MonitorModel {
    pub show: bool,
    pub scroll: usize,
    pub focus_history: bool,
    pub list_idx: usize,
    pub picking: bool,
    pub selected_profile: Option<Seq<char>>,
    pub show_analysis: bool,
    pub analysis_idx: usize,
}

impl View for MonitorPane {
    type V = MonitorModel;

    open spec fn view(&self) -> MonitorModel {
        MonitorModel {
            show: self.show,
            scroll: self.scroll,
            focus_history: self.focus_history,
            list_idx: self.list_idx,
            picking: self.picking,
            selected_profile: crate::menu::maybe(self.selected_profile),
            show_analysis: self.show_analysis,
            analysis_idx: self.analysis_idx,
        }
    }
}

/// The screen while the program runs.
#[derive(Debug)]
pub struct Ui {
    pub table: TablePane,
    pub entry: EntryPane,
    pub pattern: PatternPane,
    pub monitor: MonitorPane,
    /// Whether the bytes of the last frame are shown.
    pub show_byte_panel: bool,
    /// Whether the units that were found are shown.
    pub show_scan_dialog: bool,
    /// What was last reported.
    pub status_msg: Option<Piece>,
    /// The names of all profiles.
    pub profiles: Vec<String>,
}

/// The screen while the program runs, mathematically.
pub struct Screen {
    pub table: TableModel,
    pub entry: EntryModel,
    pub pattern: PatternModel,
    pub monitor: MonitorModel,
    pub show_byte_panel: bool,
    pub show_scan_dialog: bool,
    pub status_msg: Option<Part>,
    pub profiles: Seq<Seq<char>>,
}

impl View for Ui {
    type V = Screen;

    open spec fn view(&self) -> Screen {
        Screen {
            table: self.table@,
            entry: self.entry@,
            pattern: self.pattern@,
            monitor: self.monitor@,
            show_byte_panel: self.show_byte_panel,
            show_scan_dialog: self.show_scan_dialog,
            status_msg: crate::menu::maybe_part(self.status_msg),
            profiles: crate::text::texts(self.profiles@),
        }
    }
}

/// The screen with which a run starts.
pub open spec fn first_screen(
    base: DisplayBase,
    reg_format: RegDataFormat,
    swap_bytes: bool,
    swap_words: bool,
    profiles: Seq<Seq<char>>,
    show_monitor: bool,
) -> Screen {
    Screen {
        table: TableModel {
            base,
            selected: 0,
            scroll: 0,
            reg_view: RegView::Holding,
            show_change_bar: false,
            reg_format,
            swap_bytes,
            swap_words,
            goto_mode: false,
            goto_buf: Seq::empty(),
            search_mode: false,
            search_buf: Seq::empty(),
        },
        entry: EntryModel {
            edit_mode: false,
            edit_is_label: false,
            edit_is_profile: false,
            edit_buf: Seq::empty(),
        },
        pattern: PatternModel {
            open: false,
            addr: 0,
            reg_type: RegView::Holding,
            sel: 0,
            editing_freq: false,
            freq_buf: Seq::empty(),
            freq: DOUBLE_ONE,
        },
        monitor: MonitorModel {
            show: show_monitor,
            scroll: 0,
            focus_history: true,
            list_idx: 0,
            picking: true,
            selected_profile: None,
            show_analysis: false,
            analysis_idx: 0,
        },
        show_byte_panel: false,
        show_scan_dialog: false,
        status_msg: None,
        profiles,
    }
}

/// Whether the name of a mode is that of a monitor.
pub open spec fn of_monitor(main_mode: Seq<char>) -> bool {
    crate::text::has_infix(main_mode, "monitor"@)
}

/// Whether the name of a mode is that of a monitor.
pub fn is_monitor(main_mode: &str) -> (r: bool)
    ensures
        r == of_monitor(main_mode@),
{
    crate::text::holds(main_mode, "monitor")
}

/// The two modes of a monitor are known by their names, and no other mode is
/// taken for one.
pub proof fn law_monitor_modes_are_known(m: MainMode)
    ensures
        of_monitor(mode_name(m)) <==> m is TcpMonitor || m is RtuMonitor,
{
    reveal_strlit("monitor");
    reveal_strlit("tcp-server");
    reveal_strlit("tcp-client");
    reveal_strlit("rtu-server");
    reveal_strlit("rtu-client");
    reveal_strlit("tcp-monitor");
    reveal_strlit("rtu-monitor");
    let s = mode_name(m);
    let t = "monitor"@;
    if m is TcpMonitor || m is RtuMonitor {
        assert(s.subrange(4, 4 + t.len() as int) =~= t);
        assert(crate::text::stands_at(s, 4, t));
    } else if of_monitor(s) {
        let i = choose|i: int| crate::text::stands_at(s, i, t);
        assert(s.subrange(i, i + t.len())[0] == t[0]);
        assert(false);
    }
}

impl Ui {
    /// The screen with which a run starts. The monitor is shown where the mode
    /// is one of a monitor.
    pub fn new(
        base: DisplayBase,
        reg_format: RegDataFormat,
        swap_bytes: bool,
        swap_words: bool,
        profiles: Vec<String>,
        main_mode: &str,
    ) -> (r: Ui)
        ensures
            r@ == first_screen(
                base,
                reg_format,
                swap_bytes,
                swap_words,
                crate::text::texts(profiles@),
                of_monitor(main_mode@),
            ),
    {
        let show_monitor: bool = is_monitor(main_mode);
        Ui {
            table: TablePane {
                base,
                selected: 0,
                scroll: 0,
                reg_view: RegView::Holding,
                show_change_bar: false,
                reg_format,
                swap_bytes,
                swap_words,
                goto_mode: false,
                goto_buf: String::new(),
                search_mode: false,
                search_buf: String::new(),
            },
            entry: EntryPane {
                edit_mode: false,
                edit_is_label: false,
                edit_is_profile: false,
                edit_buf: String::new(),
            },
            pattern: PatternPane {
                open: false,
                addr: 0,
                reg_type: RegView::Holding,
                sel: 0,
                editing_freq: false,
                freq_buf: String::new(),
                freq: DOUBLE_ONE,
            },
            monitor: MonitorPane {
                show: show_monitor,
                scroll: 0,
                focus_history: true,
                list_idx: 0,
                picking: true,
                selected_profile: None,
                show_analysis: false,
                analysis_idx: 0,
            },
            show_byte_panel: false,
            show_scan_dialog: false,
            status_msg: None,
            profiles,
        }
    }
}

impl TablePane {
    /// Takes over the format and the order of bytes and registers of a device.
    pub fn sync(&mut self, s: &AppState)
        ensures
            final(self)@ == (TableModel {
                reg_format: s.reg_format,
                swap_bytes: s.swap_bytes,
                swap_words: s.swap_words,
                ..old(self)@
            }),
    {
        self.reg_format = s.reg_format;
        self.swap_bytes = s.swap_bytes;
        self.swap_words = s.swap_words;
    }
}

/// What a key leads to.
#[derive(Debug)]
pub enum UiStep {
    /// The screen goes on.
    Stay,
    /// The program ends.
    Quit,
    /// The frequency that is set is to be shown, to be changed.
    ShowFrequency,
    /// The frequency that was entered is to be read.
    ReadFrequency,
    /// The settings are to be saved under a name.
    SaveProfile(String),
    /// A command is to be sent.
    Send(RegCmd),
    /// A command is to be sent, and its answer awaited.
    Await(RegCmd),
    /// A monitor is to be started for a profile.
    Monitor(String),
    /// Units are to be searched for.
    Scan,
    /// The registers are to be written to a file.
    Export,
}

/// White space by ASCII.
pub open spec fn ascii_white(c: char) -> bool {
    c == ' ' || c == '\t' || c == '\n' || c == '\x0C' || c == '\r'
}

/// Whether a character can be entered behind an entry for a register: a digit of
/// the base, or the letter of a mark behind a zero.
pub open spec fn accepted(current: Seq<char>, c: char, base: DisplayBase) -> bool {
    if ascii_white(c) {
        false
    } else if c == 'x' || c == 'X' || c == 'b' || c == 'B' {
        current == "0"@
    } else if c == '0' && current.len() == 0 {
        true
    } else {
        match base {
            DisplayBase::Dec => crate::numeral::is_digit(c, 10),
            DisplayBase::Hex => crate::numeral::is_digit(c, 16),
            DisplayBase::Bin => c == '0' || c == '1',
        }
    }
}

/// Whether a character can be entered behind an entry for a register.
pub fn edit_accepts_char(current: &str, ch: char, base: DisplayBase) -> (r: bool)
    ensures
        r == accepted(current@, ch, base),
{
    if ch == ' ' || ch == '\t' || ch == '\n' || ch == '\x0C' || ch == '\r' {
        return false;
    }
    if ch == 'x' || ch == 'X' || ch == 'b' || ch == 'B' {
        return same(current, "0");
    }
    if ch == '0' && crate::text::chars_of(current).len() == 0 {
        return true;
    }
    match base {
        DisplayBase::Dec => crate::numeral::digit_number(ch) < 10,
        DisplayBase::Hex => crate::numeral::digit_number(ch) < 16,
        DisplayBase::Bin => ch == '0' || ch == '1',
    }
}

} // verus!
