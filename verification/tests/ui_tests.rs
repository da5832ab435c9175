use tuipmgr::table::{column_from_name, SortColumn};
use tuipmgr::screens::{split_label, system_info_lines, tab_spans, tab_titles, TabBar};
use tuipmgr::ui::{
    handle_editing_event, handle_normal_event, initial_state, needs_row_count, wants_editing_event,
    wants_normal_event, Action, AppState, Event, FieldItem, InputField, InputMode, Key, MenuItem,
    OptionsItem,
};

fn key(c: char) -> Event {
    Event::Input(Key::Char(c))
}

fn press(s: AppState, e: Event) -> (AppState, Action) {
    handle_normal_event(s, e, 5)
}

fn on_table() -> AppState {
    press(initial_state(), key('d')).0
}

#[test]
fn initial_state_values() {
    let s = initial_state();
    assert_eq!(s.menu, MenuItem::Home);
    assert_eq!(s.options, OptionsItem::NoneSelected);
    assert_eq!(s.field, FieldItem::Pid);
    assert_eq!(s.sort_field, "");
    assert_eq!(s.input_mode, InputMode::Normal);
    assert_eq!(s.input_field.messages, vec![String::new()]);
    assert_eq!(s.selected, Some(0));
    assert!(wants_normal_event(&s));
    assert!(!wants_editing_event(&s));
}

#[test]
fn input_field_default_is_empty() {
    let f = InputField::default();
    assert_eq!(f.input, "");
    assert!(f.messages.is_empty());
}

#[test]
fn menu_indices() {
    assert_eq!(usize::from(MenuItem::Home), 0);
    assert_eq!(usize::from(MenuItem::Table), 1);
    assert_eq!(usize::from(MenuItem::Graphs), 2);
    assert_eq!(usize::from(OptionsItem::Sort), 0);
    assert_eq!(usize::from(OptionsItem::SetPriority), 4);
    assert_eq!(usize::from(OptionsItem::NoneSelected), 5);
    assert_eq!(usize::from(FieldItem::Pid), 0);
    assert_eq!(usize::from(FieldItem::OpenFiles), 9);
    assert_eq!(usize::from(FieldItem::Exit), 10);
}

#[test]
fn quit_and_terminate_keys() {
    let (_, a) = press(initial_state(), key('q'));
    assert_eq!(a, Action::Quit);
    let (_, a) = press(initial_state(), key('Q'));
    assert_eq!(a, Action::Quit);
    let (s, a) = press(initial_state(), key('t'));
    assert_eq!(a, Action::Terminate);
    assert_eq!(s.menu, MenuItem::Home);
    let (s, a) = press(on_table(), key('T'));
    assert_eq!(a, Action::Terminate);
    assert_eq!(s.options, OptionsItem::Terminate);
    let (s, a) = press(s, key('t'));
    assert_eq!(a, Action::Terminate);
    assert_eq!(s.options, OptionsItem::Terminate);
    let s = press(s, key('x')).0;
    assert_eq!(s.options, OptionsItem::NoneSelected);
    let (_, a) = press(initial_state(), Event::Tick);
    assert_eq!(a, Action::Continue);
}

#[test]
fn screen_keys() {
    let s = on_table();
    assert_eq!(s.menu, MenuItem::Table);
    let s = press(s, key('G')).0;
    assert_eq!(s.menu, MenuItem::Graphs);
    let s = press(s, key('h')).0;
    assert_eq!(s.menu, MenuItem::Home);
}

#[test]
fn sort_bar_cycle_and_choice() {
    let s = press(initial_state(), key('s')).0;
    assert_eq!(s.options, OptionsItem::NoneSelected); // not on the table
    let s = press(on_table(), key('s')).0;
    assert_eq!(s.options, OptionsItem::Sort);
    let s = press(s, Event::Input(Key::Left)).0;
    assert_eq!(s.field, FieldItem::Exit);
    let s = press(s, Event::Input(Key::Right)).0;
    let s = press(s, Event::Input(Key::Right)).0;
    let s = press(s, Event::Input(Key::Right)).0;
    let s = press(s, Event::Input(Key::Right)).0;
    assert_eq!(s.field, FieldItem::ParentPid);
    let s = press(s, Event::Input(Key::Enter)).0;
    assert_eq!(s.sort_field, "parent_pid");
    assert_eq!(column_from_name(&s.sort_field), SortColumn::ParentId);
    assert_eq!(s.options, OptionsItem::Sort);
    let mut s = s;
    for _ in 0..7 {
        s = press(s, Event::Input(Key::Right)).0;
    }
    assert_eq!(s.field, FieldItem::Exit);
    let s = press(s, Event::Input(Key::Enter)).0;
    assert_eq!(s.sort_field, "");
    assert_eq!(s.options, OptionsItem::NoneSelected);
}

#[test]
fn highlight_wraps_around() {
    let s = on_table();
    assert!(needs_row_count(&s, Event::Input(Key::Up)));
    assert!(!needs_row_count(&s, Event::Input(Key::Left)));
    let s = handle_normal_event(s, Event::Input(Key::Up), 3).0;
    assert_eq!(s.selected, Some(2));
    let s = handle_normal_event(s, Event::Input(Key::Down), 3).0;
    assert_eq!(s.selected, Some(0));
    let s = handle_normal_event(s, Event::Input(Key::Down), 3).0;
    assert_eq!(s.selected, Some(1));
    let s = handle_normal_event(s, Event::Input(Key::Up), 3).0;
    assert_eq!(s.selected, Some(0));
    // with a bar open the highlight stays
    let s = press(s, key('p')).0;
    assert_eq!(s.options, OptionsItem::SetPriority);
    assert!(!needs_row_count(&s, Event::Input(Key::Down)));
    let s = handle_normal_event(s, Event::Input(Key::Down), 0).0;
    assert_eq!(s.selected, Some(0));
    let s = press(s, key('x')).0;
    assert_eq!(s.options, OptionsItem::NoneSelected);
}

#[test]
fn typing_in_search_bar() {
    let s = press(on_table(), key('e')).0;
    assert_eq!(s.options, OptionsItem::Search);
    assert_eq!(s.input_mode, InputMode::Editing);
    assert!(!wants_normal_event(&s));
    assert!(wants_editing_event(&s));
    let s = handle_editing_event(s, key('s'));
    let s = handle_editing_event(s, key('h'));
    let s = handle_editing_event(s, key('x'));
    let s = handle_editing_event(s, Event::Input(Key::Backspace));
    assert_eq!(s.input_field.input, "sh");
    let s = handle_editing_event(s, Event::Input(Key::Enter));
    assert_eq!(s.input_field.input, "");
    assert_eq!(s.input_field.messages, vec!["".to_string(), "sh".to_string()]);
    let s = handle_editing_event(s, Event::Input(Key::Backspace));
    assert_eq!(s.input_field.input, "");
    let s = handle_editing_event(s, key('a'));
    let s = handle_editing_event(s, Event::Input(Key::Esc));
    assert_eq!(s.input_field.input, "");
    assert_eq!(s.input_mode, InputMode::Normal);
    assert_eq!(s.options, OptionsItem::Search);
    assert!(wants_normal_event(&s));
    assert!(!wants_editing_event(&s));
    let s = press(s, key('x')).0;
    assert_eq!(s.options, OptionsItem::NoneSelected);
}

#[test]
fn filter_and_capital_e() {
    let s = press(on_table(), key('F')).0;
    assert_eq!(s.options, OptionsItem::Filter);
    assert_eq!(s.input_mode, InputMode::Editing);
    // 'E' opens the search bar even with another bar open
    let s = press(on_table(), key('s')).0;
    let s = press(s, key('E')).0;
    assert_eq!(s.options, OptionsItem::Search);
    // 'e' does not
    let s = press(on_table(), key('s')).0;
    let s = press(s, key('e')).0;
    assert_eq!(s.options, OptionsItem::Sort);
}

#[test]
fn tab_titles_and_spans() {
    assert_eq!(tab_titles(TabBar::Menu), vec!["Home", "Display Process Table", "Graphs & Charts"]);
    assert_eq!(tab_titles(TabBar::GraphOptions), vec!["Coming Soon", "Quit"]);
    assert_eq!(tab_titles(TabBar::SortFields).len(), 11);
    assert_eq!(tab_titles(TabBar::TableOptions)[3], "Terminate Process");
    let spans = tab_spans(TabBar::HomeOptions);
    assert_eq!(spans[1], ("D".to_string(), "isplay Graph & Charts".to_string()));
    assert_eq!(spans[2], ("Q".to_string(), "uit".to_string()));
    assert_eq!(split_label("X"), ("X".to_string(), String::new()));
}

#[test]
fn system_lines() {
    let l = system_info_lines("Linux", "6.1", "12", "box");
    assert_eq!(l.len(), 9);
    assert_eq!(l[0], "   About your system:");
    assert_eq!(l[1], "");
    assert_eq!(l[2], "System name:            Linux");
    assert_eq!(l[4], "System kernel version:  6.1");
    assert_eq!(l[6], "System OS version:      12");
    assert_eq!(l[8], "System host name:       box");
}
