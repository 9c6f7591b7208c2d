//! Display-side state that the input loop drives: the active tab, the
//! process sort order, the color theme, search mode and scrolling.

use vstd::prelude::*;

verus! {

#[derive(Clone, Copy, Debug, PartialEq, Eq, Structural)]
pub enum Tab {
    Overview,
    Processes,
    SystemInfo,
    NetworkDetail,
}

impl Tab {
    /// Every tab, in display order.
    pub fn all() -> (r: Vec<Tab>)
        ensures
            r@ =~= seq![Tab::Overview, Tab::Processes, Tab::SystemInfo, Tab::NetworkDetail],
    {
        let mut v: Vec<Tab> = Vec::new();
        v.push(Tab::Overview);
        v.push(Tab::Processes);
        v.push(Tab::SystemInfo);
        v.push(Tab::NetworkDetail);
        v
    }

    /// The tab's position in display order.
    pub open spec fn spec_index(self) -> int {
        match self {
            Tab::Overview => 0,
            Tab::Processes => 1,
            Tab::SystemInfo => 2,
            Tab::NetworkDetail => 3,
        }
    }

    pub fn index(self) -> (r: usize)
        ensures
            r == self.spec_index(),
            r < 4,
    {
        match self {
            Tab::Overview => 0,
            Tab::Processes => 1,
            Tab::SystemInfo => 2,
            Tab::NetworkDetail => 3,
        }
    }

    pub open spec fn spec_label(self) -> Seq<char> {
        match self {
            Tab::Overview => " Overview "@,
            Tab::Processes => " Processes "@,
            Tab::SystemInfo => " System "@,
            Tab::NetworkDetail => " Network "@,
        }
    }

    pub fn label(self) -> (r: &'static str)
        ensures
            r@ == self.spec_label(),
    {
        match self {
            Tab::Overview => " Overview ",
            Tab::Processes => " Processes ",
            Tab::SystemInfo => " System ",
            Tab::NetworkDetail => " Network ",
        }
    }
}

#[derive(Clone, Copy, Debug, PartialEq, Eq, Structural)]
pub enum SortBy {
    Cpu,
    Memory,
    Name,
    Pid,
}

impl SortBy {
    pub open spec fn spec_label(self) -> Seq<char> {
        match self {
            SortBy::Cpu => "CPU \u{25bc}"@,
            SortBy::Memory => "MEM \u{25bc}"@,
            SortBy::Name => "NAME \u{25bc}"@,
            SortBy::Pid => "PID \u{25bc}"@,
        }
    }

    pub fn label(self) -> (r: &'static str)
        ensures
            r@ == self.spec_label(),
    {
        match self {
            SortBy::Cpu => "CPU \u{25bc}",
            SortBy::Memory => "MEM \u{25bc}",
            SortBy::Name => "NAME \u{25bc}",
            SortBy::Pid => "PID \u{25bc}",
        }
    }

    /// The sort order the toggle key cycles to.
    pub open spec fn spec_next(self) -> SortBy {
        match self {
            SortBy::Cpu => SortBy::Memory,
            SortBy::Memory => SortBy::Name,
            SortBy::Name => SortBy::Pid,
            SortBy::Pid => SortBy::Cpu,
        }
    }

    pub fn next(self) -> (r: Self)
        ensures
            r == self.spec_next(),
    {
        match self {
            SortBy::Cpu => SortBy::Memory,
            SortBy::Memory => SortBy::Name,
            SortBy::Name => SortBy::Pid,
            SortBy::Pid => SortBy::Cpu,
        }
    }
}

#[derive(Clone, Copy, Debug, PartialEq, Eq, Structural)]
pub enum InputMode {
    Normal,
    Search,
}

#[derive(Clone, Copy, Debug, PartialEq, Eq, Structural)]
pub enum Theme {
    Default,
    Ocean,
    Forest,
    Sunset,
}

impl Theme {
    /// The theme the toggle key cycles to.
    pub open spec fn spec_next(self) -> Theme {
        match self {
            Theme::Default => Theme::Ocean,
            Theme::Ocean => Theme::Forest,
            Theme::Forest => Theme::Sunset,
            Theme::Sunset => Theme::Default,
        }
    }

    pub fn next(self) -> (r: Self)
        ensures
            r == self.spec_next(),
    {
        match self {
            Theme::Default => Theme::Ocean,
            Theme::Ocean => Theme::Forest,
            Theme::Forest => Theme::Sunset,
            Theme::Sunset => Theme::Default,
        }
    }

    pub open spec fn spec_label(self) -> Seq<char> {
        match self {
            Theme::Default => "Default"@,
            Theme::Ocean => "Ocean"@,
            Theme::Forest => "Forest"@,
            Theme::Sunset => "Sunset"@,
        }
    }

    pub fn label(self) -> (r: &'static str)
        ensures
            r@ == self.spec_label(),
    {
        match self {
            Theme::Default => "Default",
            Theme::Ocean => "Ocean",
            Theme::Forest => "Forest",
            Theme::Sunset => "Sunset",
        }
    }
}

/// Where a scroll position lands after moving down `n` rows, never
/// entering or passing the last entry of a list of `count` rows.
pub open spec fn stepped_down(cur: int, count: int, n: int) -> int
    decreases n,
{
    if n <= 0 {
        cur
    } else {
        let prev = stepped_down(cur, count, n - 1);
        if prev + 1 < count {
            prev + 1
        } else {
            prev
        }
    }
}

/// Where a scroll position lands after moving up `n` rows, never
/// before the first entry.
pub open spec fn stepped_up(cur: int, n: int) -> int
    decreases n,
{
    if n <= 0 {
        cur
    } else {
        let prev = stepped_up(cur, n - 1);
        if prev > 0 {
            prev - 1
        } else {
            prev
        }
    }
}

/// The input-driven display state. The lists being scrolled live with
/// the display layer; the scroll methods take the relevant list length
/// and keep each position inside it.
pub struct UiState {
    pub active_tab: Tab,
    pub sort_by: SortBy,
    pub input_mode: InputMode,
    pub theme: Theme,
    pub show_help: bool,
    pub process_scroll: usize,
    pub network_scroll: usize,
}

impl UiState {
    pub fn new() -> (r: Self)
        ensures
            r.active_tab == Tab::Overview,
            r.sort_by == SortBy::Cpu,
            r.input_mode == InputMode::Normal,
            r.theme == Theme::Default,
            !r.show_help,
            r.process_scroll == 0,
            r.network_scroll == 0,
    {
        UiState {
            active_tab: Tab::Overview,
            sort_by: SortBy::Cpu,
            input_mode: InputMode::Normal,
            theme: Theme::Default,
            show_help: false,
            process_scroll: 0,
            network_scroll: 0,
        }
    }

    /// Cycle to the next tab in display order, wrapping around.
    pub fn next_tab(&mut self)
        ensures
            final(self).active_tab.spec_index() == (old(self).active_tab.spec_index() + 1) % 4,
            final(self).sort_by == old(self).sort_by,
            final(self).process_scroll == old(self).process_scroll,
            final(self).network_scroll == old(self).network_scroll,
    {
        let tabs = Tab::all();
        let idx = self.active_tab.index();
        self.active_tab = tabs[(idx + 1) % 4];
    }

    /// Cycle to the previous tab in display order, wrapping around.
    pub fn prev_tab(&mut self)
        ensures
            final(self).active_tab.spec_index() == (old(self).active_tab.spec_index() + 3) % 4,
            final(self).sort_by == old(self).sort_by,
            final(self).process_scroll == old(self).process_scroll,
            final(self).network_scroll == old(self).network_scroll,
    {
        let tabs = Tab::all();
        let idx = self.active_tab.index();
        self.active_tab = tabs[(idx + 3) % 4];
    }

    /// The scroll position the active tab's list uses, moved down one
    /// row but never past the last entry.
    pub fn scroll_down(&mut self, process_count: usize, network_count: usize)
        ensures
            final(self).active_tab == old(self).active_tab,
            final(self).sort_by == old(self).sort_by,
            final(self).input_mode == old(self).input_mode,
            final(self).theme == old(self).theme,
            final(self).show_help == old(self).show_help,
            old(self).active_tab is Processes ==> final(self).process_scroll == (if old(self).process_scroll + 1 < process_count {
                old(self).process_scroll + 1
            } else {
                old(self).process_scroll as int
            }) && final(self).network_scroll == old(self).network_scroll,
            old(self).active_tab is NetworkDetail ==> final(self).network_scroll == (if old(self).network_scroll + 1 < network_count {
                old(self).network_scroll + 1
            } else {
                old(self).network_scroll as int
            }) && final(self).process_scroll == old(self).process_scroll,
            !(old(self).active_tab is Processes) && !(old(self).active_tab is NetworkDetail)
                ==> final(self).process_scroll == old(self).process_scroll && final(self).network_scroll == old(self).network_scroll,
    {
        match self.active_tab {
            Tab::Processes => {
                let max = if process_count > 0 {
                    process_count - 1
                } else {
                    0
                };
                if self.process_scroll < max {
                    self.process_scroll = self.process_scroll + 1;
                }
            },
            Tab::NetworkDetail => {
                let max = if network_count > 0 {
                    network_count - 1
                } else {
                    0
                };
                if self.network_scroll < max {
                    self.network_scroll = self.network_scroll + 1;
                }
            },
            _ => {},
        }
    }

    /// The active tab's scroll position, moved up one row but never
    /// before the first entry.
    pub fn scroll_up(&mut self)
        ensures
            final(self).active_tab == old(self).active_tab,
            final(self).sort_by == old(self).sort_by,
            final(self).input_mode == old(self).input_mode,
            final(self).theme == old(self).theme,
            final(self).show_help == old(self).show_help,
            old(self).active_tab is Processes ==> final(self).process_scroll == (if old(self).process_scroll > 0 {
                old(self).process_scroll - 1
            } else {
                0
            }) && final(self).network_scroll == old(self).network_scroll,
            old(self).active_tab is NetworkDetail ==> final(self).network_scroll == (if old(self).network_scroll > 0 {
                old(self).network_scroll - 1
            } else {
                0
            }) && final(self).process_scroll == old(self).process_scroll,
            !(old(self).active_tab is Processes) && !(old(self).active_tab is NetworkDetail)
                ==> final(self).process_scroll == old(self).process_scroll && final(self).network_scroll == old(self).network_scroll,
    {
        match self.active_tab {
            Tab::Processes => {
                if self.process_scroll > 0 {
                    self.process_scroll = self.process_scroll - 1;
                }
            },
            Tab::NetworkDetail => {
                if self.network_scroll > 0 {
                    self.network_scroll = self.network_scroll - 1;
                }
            },
            _ => {},
        }
    }

    /// A page is ten rows.
    /// A page is ten rows: the active tab's list moves down ten, held
    /// inside the list.
    pub fn page_down(&mut self, process_count: usize, network_count: usize)
        ensures
            final(self).active_tab == old(self).active_tab,
            final(self).sort_by == old(self).sort_by,
            old(self).active_tab is Processes ==> final(self).process_scroll == stepped_down(
                old(self).process_scroll as int,
                process_count as int,
                10,
            ) && final(self).network_scroll == old(self).network_scroll,
            old(self).active_tab is NetworkDetail ==> final(self).network_scroll == stepped_down(
                old(self).network_scroll as int,
                network_count as int,
                10,
            ) && final(self).process_scroll == old(self).process_scroll,
            !(old(self).active_tab is Processes) && !(old(self).active_tab is NetworkDetail)
                ==> final(self).process_scroll == old(self).process_scroll && final(self).network_scroll == old(self).network_scroll,
    {
        let mut i: usize = 0;
        while i < 10
            invariant
                i <= 10,
                self.active_tab == old(self).active_tab,
                self.sort_by == old(self).sort_by,
                old(self).active_tab is Processes ==> self.process_scroll == stepped_down(
                    old(self).process_scroll as int,
                    process_count as int,
                    i as int,
                ) && self.network_scroll == old(self).network_scroll,
                old(self).active_tab is NetworkDetail ==> self.network_scroll == stepped_down(
                    old(self).network_scroll as int,
                    network_count as int,
                    i as int,
                ) && self.process_scroll == old(self).process_scroll,
                !(old(self).active_tab is Processes) && !(old(self).active_tab is NetworkDetail)
                    ==> self.process_scroll == old(self).process_scroll && self.network_scroll
                    == old(self).network_scroll,
            decreases 10 - i,
        {
            self.scroll_down(process_count, network_count);
            i = i + 1;
        }
    }

    /// A page is ten rows: the active tab's list moves up ten, held
    /// at the first entry.
    pub fn page_up(&mut self)
        ensures
            final(self).active_tab == old(self).active_tab,
            final(self).sort_by == old(self).sort_by,
            old(self).active_tab is Processes ==> final(self).process_scroll == stepped_up(
                old(self).process_scroll as int,
                10,
            ) && final(self).network_scroll == old(self).network_scroll,
            old(self).active_tab is NetworkDetail ==> final(self).network_scroll == stepped_up(
                old(self).network_scroll as int,
                10,
            ) && final(self).process_scroll == old(self).process_scroll,
            !(old(self).active_tab is Processes) && !(old(self).active_tab is NetworkDetail)
                ==> final(self).process_scroll == old(self).process_scroll && final(self).network_scroll == old(self).network_scroll,
    {
        let mut i: usize = 0;
        while i < 10
            invariant
                i <= 10,
                self.active_tab == old(self).active_tab,
                self.sort_by == old(self).sort_by,
                old(self).active_tab is Processes ==> self.process_scroll == stepped_up(
                    old(self).process_scroll as int,
                    i as int,
                ) && self.network_scroll == old(self).network_scroll,
                old(self).active_tab is NetworkDetail ==> self.network_scroll == stepped_up(
                    old(self).network_scroll as int,
                    i as int,
                ) && self.process_scroll == old(self).process_scroll,
                !(old(self).active_tab is Processes) && !(old(self).active_tab is NetworkDetail)
                    ==> self.process_scroll == old(self).process_scroll && self.network_scroll
                    == old(self).network_scroll,
            decreases 10 - i,
        {
            self.scroll_up();
            i = i + 1;
        }
    }

    pub fn scroll_to_top(&mut self)
        ensures
            final(self).process_scroll == 0,
            final(self).network_scroll == 0,
            final(self).active_tab == old(self).active_tab,
    {
        self.process_scroll = 0;
        self.network_scroll = 0;
    }

    /// Jump the active tab's list to its last entry.
    pub fn scroll_to_bottom(&mut self, process_count: usize, network_count: usize)
        ensures
            final(self).active_tab == old(self).active_tab,
            old(self).active_tab is Processes ==> final(self).process_scroll == (if process_count
                > 0 {
                process_count - 1
            } else {
                0
            }),
            old(self).active_tab is NetworkDetail ==> final(self).network_scroll == (
            if network_count > 0 {
                network_count - 1
            } else {
                0
            }),
    {
        match self.active_tab {
            Tab::Processes => {
                self.process_scroll = if process_count > 0 {
                    process_count - 1
                } else {
                    0
                };
            },
            Tab::NetworkDetail => {
                self.network_scroll = if network_count > 0 {
                    network_count - 1
                } else {
                    0
                };
            },
            _ => {},
        }
    }

    /// Advance the process sort order; the display layer re-sorts.
    pub fn toggle_sort(&mut self)
        ensures
            final(self).sort_by == old(self).sort_by.spec_next(),
            final(self).active_tab == old(self).active_tab,
    {
        self.sort_by = self.sort_by.next();
    }

    pub fn toggle_theme(&mut self)
        ensures
            final(self).theme == old(self).theme.spec_next(),
    {
        self.theme = self.theme.next();
    }

    pub fn toggle_help(&mut self)
        ensures
            final(self).show_help == !old(self).show_help,
    {
        self.show_help = !self.show_help;
    }

    /// Enter search mode; the query itself lives with the input loop.
    pub fn enter_search(&mut self)
        ensures
            final(self).input_mode == InputMode::Search,
            final(self).active_tab == old(self).active_tab,
    {
        self.input_mode = InputMode::Search;
    }

    pub fn exit_search(&mut self)
        ensures
            final(self).input_mode == InputMode::Normal,
            final(self).active_tab == old(self).active_tab,
    {
        self.input_mode = InputMode::Normal;
    }
}

} // verus!
