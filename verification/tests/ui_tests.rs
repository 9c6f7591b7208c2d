use sysmon::ui::{InputMode, SortBy, Tab, Theme, UiState};

#[test]
fn tabs_cycle_forward_and_back() {
    let mut ui = UiState::new();
    assert_eq!(ui.active_tab, Tab::Overview);
    ui.next_tab();
    assert_eq!(ui.active_tab, Tab::Processes);
    ui.next_tab();
    ui.next_tab();
    assert_eq!(ui.active_tab, Tab::NetworkDetail);
    ui.next_tab();
    assert_eq!(ui.active_tab, Tab::Overview);
    ui.prev_tab();
    assert_eq!(ui.active_tab, Tab::NetworkDetail);
}

#[test]
fn tab_index_and_labels() {
    assert_eq!(Tab::Overview.index(), 0);
    assert_eq!(Tab::Processes.index(), 1);
    assert_eq!(Tab::SystemInfo.index(), 2);
    assert_eq!(Tab::NetworkDetail.index(), 3);
    assert_eq!(Tab::all().len(), 4);
    assert_eq!(Tab::Overview.label(), " Overview ");
    assert_eq!(Tab::NetworkDetail.label(), " Network ");
}

#[test]
fn sort_order_cycles() {
    assert_eq!(SortBy::Cpu.next(), SortBy::Memory);
    assert_eq!(SortBy::Memory.next(), SortBy::Name);
    assert_eq!(SortBy::Name.next(), SortBy::Pid);
    assert_eq!(SortBy::Pid.next(), SortBy::Cpu);
    assert_eq!(SortBy::Cpu.label(), "CPU \u{25bc}");
}

#[test]
fn theme_cycles_with_labels() {
    assert_eq!(Theme::Default.next(), Theme::Ocean);
    assert_eq!(Theme::Sunset.next(), Theme::Default);
    assert_eq!(Theme::Forest.label(), "Forest");
    let mut ui = UiState::new();
    ui.toggle_theme();
    assert_eq!(ui.theme, Theme::Ocean);
}

#[test]
fn scrolling_stays_inside_the_list() {
    let mut ui = UiState::new();
    ui.next_tab();
    assert_eq!(ui.active_tab, Tab::Processes);
    for _ in 0..5 {
        ui.scroll_down(3, 0);
    }
    assert_eq!(ui.process_scroll, 2);
    ui.scroll_up();
    assert_eq!(ui.process_scroll, 1);
    ui.scroll_to_bottom(3, 0);
    assert_eq!(ui.process_scroll, 2);
    ui.scroll_to_top();
    assert_eq!(ui.process_scroll, 0);
    ui.page_down(25, 0);
    assert_eq!(ui.process_scroll, 10);
    ui.page_up();
    assert_eq!(ui.process_scroll, 0);
}

#[test]
fn scrolling_on_static_tabs_is_inert() {
    let mut ui = UiState::new();
    assert_eq!(ui.active_tab, Tab::Overview);
    ui.scroll_down(10, 10);
    ui.scroll_to_bottom(10, 10);
    assert_eq!(ui.process_scroll, 0);
    assert_eq!(ui.network_scroll, 0);
}

#[test]
fn search_mode_transitions() {
    let mut ui = UiState::new();
    assert_eq!(ui.input_mode, InputMode::Normal);
    ui.enter_search();
    assert_eq!(ui.input_mode, InputMode::Search);
    ui.exit_search();
    assert_eq!(ui.input_mode, InputMode::Normal);
}

#[test]
fn sort_toggle_advances() {
    let mut ui = UiState::new();
    ui.toggle_sort();
    assert_eq!(ui.sort_by, SortBy::Memory);
    ui.toggle_help();
    assert!(ui.show_help);
}
