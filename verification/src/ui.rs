//! The state of the terminal interface and how each key changes it: which
//! screen is shown, which option bar is open, the field chosen for sorting,
//! the text being typed, and the highlighted row.

use vstd::prelude::*;
use vstd::string::*;
use crate::text::push_char;

verus! {

/// The screens of the menu bar.
#[derive(Copy, Clone, Debug, PartialEq, Eq, Structural)]
pub enum MenuItem {
    Home,
    Table,
    Graphs,
}

/// The position of a screen in the menu bar.
pub open spec fn menu_index(m: MenuItem) -> usize {
    match m {
        MenuItem::Home => 0,
        MenuItem::Table => 1,
        MenuItem::Graphs => 2,
    }
}

impl From<MenuItem> for usize {
    fn from(input: MenuItem) -> (r: usize) {
        match input {
            MenuItem::Home => 0,
            MenuItem::Table => 1,
            MenuItem::Graphs => 2,
        }
    }
}

impl vstd::std_specs::convert::FromSpecImpl<MenuItem> for usize {
    open spec fn obeys_from_spec() -> bool {
        true
    }

    open spec fn from_spec(v: MenuItem) -> usize {
        menu_index(v)
    }
}

/// The option bars of the process table.
#[derive(Copy, Clone, Debug, PartialEq, Eq, Structural)]
pub enum OptionsItem {
    Sort,
    Search,
    Filter,
    Terminate,
    SetPriority,
    NoneSelected,
}

/// The position of an option bar.
pub open spec fn options_index(o: OptionsItem) -> usize {
    match o {
        OptionsItem::Sort => 0,
        OptionsItem::Search => 1,
        OptionsItem::Filter => 2,
        OptionsItem::Terminate => 3,
        OptionsItem::SetPriority => 4,
        OptionsItem::NoneSelected => 5,
    }
}

impl From<OptionsItem> for usize {
    fn from(input: OptionsItem) -> (r: usize) {
        match input {
            OptionsItem::Sort => 0,
            OptionsItem::Search => 1,
            OptionsItem::Filter => 2,
            OptionsItem::Terminate => 3,
            OptionsItem::SetPriority => 4,
            OptionsItem::NoneSelected => 5,
        }
    }
}

impl vstd::std_specs::convert::FromSpecImpl<OptionsItem> for usize {
    open spec fn obeys_from_spec() -> bool {
        true
    }

    open spec fn from_spec(v: OptionsItem) -> usize {
        options_index(v)
    }
}

/// The fields offered in the sort bar, in the order they are shown.
#[derive(Copy, Clone, Debug, PartialEq, Eq, Structural)]
pub enum FieldItem {
    Pid,
    Name,
    State,
    ParentPid,
    Priority,
    Niceness,
    UserId,
    Memory,
    CpuTime,
    OpenFiles,
    Exit,
}

/// The position of a field in the sort bar.
pub open spec fn field_index(f: FieldItem) -> usize {
    match f {
        FieldItem::Pid => 0,
        FieldItem::Name => 1,
        FieldItem::State => 2,
        FieldItem::ParentPid => 3,
        FieldItem::Priority => 4,
        FieldItem::Niceness => 5,
        FieldItem::UserId => 6,
        FieldItem::Memory => 7,
        FieldItem::CpuTime => 8,
        FieldItem::OpenFiles => 9,
        FieldItem::Exit => 10,
    }
}

impl From<FieldItem> for usize {
    fn from(input: FieldItem) -> (r: usize) {
        match input {
            FieldItem::Pid => 0,
            FieldItem::Name => 1,
            FieldItem::State => 2,
            FieldItem::ParentPid => 3,
            FieldItem::Priority => 4,
            FieldItem::Niceness => 5,
            FieldItem::UserId => 6,
            FieldItem::Memory => 7,
            FieldItem::CpuTime => 8,
            FieldItem::OpenFiles => 9,
            FieldItem::Exit => 10,
        }
    }
}

impl vstd::std_specs::convert::FromSpecImpl<FieldItem> for usize {
    open spec fn obeys_from_spec() -> bool {
        true
    }

    open spec fn from_spec(v: FieldItem) -> usize {
        field_index(v)
    }
}

/// Whether keys steer the interface or are typed into the input field.
#[derive(Copy, Clone, Debug, PartialEq, Eq, Structural)]
pub enum InputMode {
    Normal,
    Editing,
}

/// The text being typed, and the history of entered texts.
pub struct InputField {
    pub input: String,
    pub messages: Vec<String>,
}

/// An `InputField` with its texts as character sequences.
#[verifier::ext_equal]
pub struct InputFieldView {
    pub input: Seq<char>,
    pub messages: Seq<Seq<char>>,
}

impl View for InputField {
    type V = InputFieldView;

    open spec fn view(&self) -> InputFieldView {
        InputFieldView {
            input: self.input@,
            messages: self.messages@.map_values(|m: String| m@),
        }
    }
}

impl Default for InputField {
    fn default() -> (r: InputField)
        ensures
            r@.input == Seq::<char>::empty(),
            r@.messages == Seq::<Seq<char>>::empty(),
    {
        let r = InputField { input: String::new(), messages: Vec::new() };
        assert(r@.messages =~= Seq::<Seq<char>>::empty());
        r
    }
}


/// Removes the last character of a string: std's `String::pop`, which
/// documents returning the removed character, or `None` (leaving the
/// string as it is) when the string is empty.
#[verifier::external_body]
fn pop_char(s: &mut String) -> (c: Option<char>)
    ensures
        old(s)@.len() == 0 ==> c is None && final(s)@ == old(s)@,
        old(s)@.len() > 0 ==> c == Some(old(s)@.last()) && final(s)@ == old(s)@.drop_last(),
{
    s.pop()
}

/// A key, as the interface tells keys apart.
#[derive(Copy, Clone, Debug, PartialEq, Eq, Structural)]
pub enum Key {
    Char(char),
    Up,
    Down,
    Left,
    Right,
    Enter,
    Backspace,
    Esc,
    Other,
}

/// What the interface waits for: a key, or the tick that asks for a redraw.
#[derive(Copy, Clone, Debug, PartialEq, Eq, Structural)]
pub enum Event {
    Input(Key),
    Tick,
}

/// What is to be done after a key besides changing the state.
#[derive(Copy, Clone, Debug, PartialEq, Eq, Structural)]
pub enum Action {
    Continue,
    /// Restore the terminal and stop.
    Quit,
    /// Terminate the process of the highlighted row.
    Terminate,
}

/// The whole state of the interface.
pub struct AppState {
    pub menu: MenuItem,
    pub options: OptionsItem,
    pub field: FieldItem,
    /// The name of the column the table is ordered by ("" for none chosen).
    pub sort_field: String,
    pub input_mode: InputMode,
    pub input_field: InputField,
    /// The highlighted row of the table.
    pub selected: Option<usize>,
}

/// An `AppState` with its texts as character sequences.
#[verifier::ext_equal]
pub struct AppView {
    pub menu: MenuItem,
    pub options: OptionsItem,
    pub field: FieldItem,
    pub sort_field: Seq<char>,
    pub input_mode: InputMode,
    pub input_field: InputFieldView,
    pub selected: Option<usize>,
}

impl View for AppState {
    type V = AppView;

    open spec fn view(&self) -> AppView {
        AppView {
            menu: self.menu,
            options: self.options,
            field: self.field,
            sort_field: self.sort_field@,
            input_mode: self.input_mode,
            input_field: self.input_field@,
            selected: self.selected,
        }
    }
}

/// The state the interface starts in: the home screen, no option bar,
/// the first field, no sort column, steering mode, one empty entry in the
/// history, and the first row highlighted.
pub open spec fn initial_view() -> AppView {
    AppView {
        menu: MenuItem::Home,
        options: OptionsItem::NoneSelected,
        field: FieldItem::Pid,
        sort_field: Seq::empty(),
        input_mode: InputMode::Normal,
        input_field: InputFieldView { input: Seq::empty(), messages: seq![Seq::empty()] },
        selected: Some(0),
    }
}

/// The state the interface starts in (see `initial_view`).
pub fn initial_state() -> (s: AppState)
    ensures
        s@ == initial_view(),
{
    let mut input_field = InputField::default();
    input_field.messages.push(String::new());
    let s = AppState {
        menu: MenuItem::Home,
        options: OptionsItem::NoneSelected,
        field: FieldItem::Pid,
        sort_field: String::new(),
        input_mode: InputMode::Normal,
        input_field,
        selected: Some(0),
    };
    assert(s@.input_field.messages =~= seq![Seq::<char>::empty()]);
    s
}

/// The field to the right of `f` in the sort bar, wrapping around.
pub open spec fn next_field(f: FieldItem) -> FieldItem {
    match f {
        FieldItem::Pid => FieldItem::Name,
        FieldItem::Name => FieldItem::State,
        FieldItem::State => FieldItem::ParentPid,
        FieldItem::ParentPid => FieldItem::Priority,
        FieldItem::Priority => FieldItem::Niceness,
        FieldItem::Niceness => FieldItem::UserId,
        FieldItem::UserId => FieldItem::Memory,
        FieldItem::Memory => FieldItem::CpuTime,
        FieldItem::CpuTime => FieldItem::OpenFiles,
        FieldItem::OpenFiles => FieldItem::Exit,
        FieldItem::Exit => FieldItem::Pid,
    }
}

/// The field to the left of `f` in the sort bar, wrapping around.
pub open spec fn prev_field(f: FieldItem) -> FieldItem {
    match f {
        FieldItem::Pid => FieldItem::Exit,
        FieldItem::Name => FieldItem::Pid,
        FieldItem::State => FieldItem::Name,
        FieldItem::ParentPid => FieldItem::State,
        FieldItem::Priority => FieldItem::ParentPid,
        FieldItem::Niceness => FieldItem::Priority,
        FieldItem::UserId => FieldItem::Niceness,
        FieldItem::Memory => FieldItem::UserId,
        FieldItem::CpuTime => FieldItem::Memory,
        FieldItem::OpenFiles => FieldItem::CpuTime,
        FieldItem::Exit => FieldItem::OpenFiles,
    }
}

/// The name of the sort column that choosing a field sets ("" for Exit).
pub open spec fn field_sort_name(f: FieldItem) -> Seq<char> {
    match f {
        FieldItem::Pid => "pid"@,
        FieldItem::Name => "name"@,
        FieldItem::State => "state"@,
        FieldItem::ParentPid => "parent_pid"@,
        FieldItem::Priority => "priority"@,
        FieldItem::Niceness => "niceness"@,
        FieldItem::UserId => "user_id"@,
        FieldItem::Memory => "memory"@,
        FieldItem::CpuTime => "cpu_time"@,
        FieldItem::OpenFiles => "open_files"@,
        FieldItem::Exit => Seq::empty(),
    }
}

/// The highlight after moving down among `count` rows: to the next row,
/// or back to the first from the last.
pub open spec fn select_down(sel: usize, count: usize) -> usize {
    if sel >= count - 1 {
        0
    } else {
        (sel + 1) as usize
    }
}

/// The highlight after moving up among `count` rows: to the previous row,
/// or to the last from the first.
pub open spec fn select_up(sel: usize, count: usize) -> usize {
    if sel > 0 {
        (sel - 1) as usize
    } else {
        (count - 1) as usize
    }
}

/// Whether the interface reads a steering key next: in steering mode.
pub open spec fn is_steering(s: AppView) -> bool {
    s.input_mode == InputMode::Normal
}

/// Whether the interface reads a typed key next: in typing mode with an
/// option bar open.
pub open spec fn is_typing(s: AppView) -> bool {
    s.input_mode == InputMode::Editing && s.options != OptionsItem::NoneSelected
}

/// A steering key moves the highlight, for which the number of rows in the
/// table is needed: up or down on the table with no option bar open and a
/// row highlighted.
pub open spec fn moves_highlight(s: AppView, e: Event) -> bool {
    &&& (e == Event::Input(Key::Up) || e == Event::Input(Key::Down))
    &&& s.menu == MenuItem::Table
    &&& s.options == OptionsItem::NoneSelected
    &&& s.selected is Some
}

/// The state with a screen shown and the option bar closed.
pub open spec fn show_screen(s: AppView, m: MenuItem) -> AppView {
    AppView { menu: m, options: OptionsItem::NoneSelected, ..s }
}

/// The state with an option bar opened for typing and the history reset to
/// one empty entry.
pub open spec fn start_typing(s: AppView, o: OptionsItem) -> AppView {
    AppView {
        options: o,
        input_mode: InputMode::Editing,
        input_field: InputFieldView { input: s.input_field.input, messages: seq![Seq::empty()] },
        ..s
    }
}

/// What a character key does in steering mode. 't' terminates the
/// highlighted process at once and, on the table with no bar open, opens
/// the terminate bar, which 'x' closes like every other bar.
pub open spec fn char_step(s: AppView, c: char) -> (AppView, Action) {
    let on_table_idle = s.options == OptionsItem::NoneSelected && s.menu == MenuItem::Table;
    if c == 'q' || c == 'Q' {
        (s, Action::Quit)
    } else if c == 'h' || c == 'H' {
        (show_screen(s, MenuItem::Home), Action::Continue)
    } else if c == 'd' || c == 'D' {
        (show_screen(s, MenuItem::Table), Action::Continue)
    } else if c == 'g' || c == 'G' {
        (show_screen(s, MenuItem::Graphs), Action::Continue)
    } else if c == 's' || c == 'S' {
        (if on_table_idle { AppView { options: OptionsItem::Sort, ..s } } else { s }, Action::Continue)
    } else if c == 'f' || c == 'F' {
        (if on_table_idle { start_typing(s, OptionsItem::Filter) } else { s }, Action::Continue)
    } else if c == 'e' {
        (if on_table_idle { start_typing(s, OptionsItem::Search) } else { s }, Action::Continue)
    } else if c == 'E' {
        (if s.options != OptionsItem::Search && s.menu == MenuItem::Table {
            start_typing(s, OptionsItem::Search)
        } else {
            s
        }, Action::Continue)
    } else if c == 'p' || c == 'P' {
        (if on_table_idle { AppView { options: OptionsItem::SetPriority, ..s } } else { s }, Action::Continue)
    } else if c == 't' || c == 'T' {
        (if on_table_idle { AppView { options: OptionsItem::Terminate, ..s } } else { s }, Action::Terminate)
    } else if c == 'x' || c == 'X' || c == 'z' || c == 'Z' {
        (AppView { options: OptionsItem::NoneSelected, ..s }, Action::Continue)
    } else {
        (s, Action::Continue)
    }
}

/// What a steering key does, with `count` the number of rows in the table
/// where the highlight moves.
pub open spec fn normal_step(s: AppView, e: Event, count: usize) -> (AppView, Action) {
    match e {
        Event::Tick => (s, Action::Continue),
        Event::Input(k) => match k {
            Key::Char(c) => char_step(s, c),
            Key::Down => if moves_highlight(s, e) {
                (AppView { selected: Some(select_down(s.selected->0, count)), ..s }, Action::Continue)
            } else {
                (s, Action::Continue)
            },
            Key::Up => if moves_highlight(s, e) {
                (AppView { selected: Some(select_up(s.selected->0, count)), ..s }, Action::Continue)
            } else {
                (s, Action::Continue)
            },
            Key::Right => (if s.options == OptionsItem::Sort {
                AppView { field: next_field(s.field), ..s }
            } else {
                s
            }, Action::Continue),
            Key::Left => (if s.options == OptionsItem::Sort {
                AppView { field: prev_field(s.field), ..s }
            } else {
                s
            }, Action::Continue),
            Key::Enter => (if s.options == OptionsItem::Sort {
                if s.field == FieldItem::Exit {
                    AppView { options: OptionsItem::NoneSelected, sort_field: Seq::empty(), ..s }
                } else {
                    AppView { sort_field: field_sort_name(s.field), ..s }
                }
            } else {
                s
            }, Action::Continue),
            _ => (s, Action::Continue),
        },
    }
}

/// What a typed key does: Enter moves the typed text into the history,
/// a character is appended, Backspace removes the last character, and Esc
/// clears the text and leaves typing for steering, with the bar still open
/// until 'x' closes it.
pub open spec fn editing_step(s: AppView, e: Event) -> AppView {
    let f = s.input_field;
    match e {
        Event::Input(Key::Enter) => AppView {
            input_field: InputFieldView { input: Seq::empty(), messages: f.messages.push(f.input) },
            ..s
        },
        Event::Input(Key::Char(c)) => AppView {
            input_field: InputFieldView { input: f.input.push(c), ..f },
            ..s
        },
        Event::Input(Key::Backspace) => AppView {
            input_field: InputFieldView {
                input: if f.input.len() > 0 { f.input.drop_last() } else { f.input },
                ..f
            },
            ..s
        },
        Event::Input(Key::Esc) => AppView {
            input_field: InputFieldView { input: Seq::empty(), ..f },
            input_mode: InputMode::Normal,
            ..s
        },
        _ => s,
    }
}

/// Whether the interface reads a steering key next.
pub fn wants_normal_event(s: &AppState) -> (r: bool)
    ensures
        r == is_steering(s@),
{
    s.input_mode == InputMode::Normal
}

/// Whether the interface reads a typed key next.
pub fn wants_editing_event(s: &AppState) -> (r: bool)
    ensures
        r == is_typing(s@),
{
    s.input_mode == InputMode::Editing && s.options != OptionsItem::NoneSelected
}

/// Whether the key moves the highlight, so that the number of rows is
/// needed.
pub fn needs_row_count(s: &AppState, e: Event) -> (r: bool)
    ensures
        r == moves_highlight(s@, e),
{
    (e == Event::Input(Key::Up) || e == Event::Input(Key::Down)) && s.menu == MenuItem::Table
        && s.options == OptionsItem::NoneSelected && s.selected.is_some()
}

fn start_typing_exec(s: &mut AppState, o: OptionsItem)
    ensures
        final(s)@ == start_typing(old(s)@, o),
{
    s.options = o;
    s.input_mode = InputMode::Editing;
    let mut messages: Vec<String> = Vec::new();
    messages.push(String::new());
    s.input_field.messages = messages;
    assert(s@.input_field.messages =~= seq![Seq::<char>::empty()]);
}

/// Applies a steering key. `count` is the number of rows in the table; it
/// is read only where the key moves the highlight, and must then be
/// positive.
pub fn handle_normal_event(state: AppState, e: Event, count: usize) -> (r: (AppState, Action))
    requires
        is_steering(state@),
        moves_highlight(state@, e) ==> count > 0,
    ensures
        (r.0@, r.1) == normal_step(state@, e, count),
{
    let mut s = state;
    let on_table_idle = s.options == OptionsItem::NoneSelected && s.menu == MenuItem::Table;
    let mut action = Action::Continue;
    match e {
        Event::Tick => {},
        Event::Input(Key::Char(c)) => {
            if c == 'q' || c == 'Q' {
                action = Action::Quit;
            } else if c == 'h' || c == 'H' {
                s.menu = MenuItem::Home;
                s.options = OptionsItem::NoneSelected;
            } else if c == 'd' || c == 'D' {
                s.menu = MenuItem::Table;
                s.options = OptionsItem::NoneSelected;
            } else if c == 'g' || c == 'G' {
                s.menu = MenuItem::Graphs;
                s.options = OptionsItem::NoneSelected;
            } else if c == 's' || c == 'S' {
                if on_table_idle {
                    s.options = OptionsItem::Sort;
                }
            } else if c == 'f' || c == 'F' {
                if on_table_idle {
                    start_typing_exec(&mut s, OptionsItem::Filter);
                }
            } else if c == 'e' {
                if on_table_idle {
                    start_typing_exec(&mut s, OptionsItem::Search);
                }
            } else if c == 'E' {
                if s.options != OptionsItem::Search && s.menu == MenuItem::Table {
                    start_typing_exec(&mut s, OptionsItem::Search);
                }
            } else if c == 'p' || c == 'P' {
                if on_table_idle {
                    s.options = OptionsItem::SetPriority;
                }
            } else if c == 't' || c == 'T' {
                if on_table_idle {
                    s.options = OptionsItem::Terminate;
                }
                action = Action::Terminate;
            } else if c == 'x' || c == 'X' || c == 'z' || c == 'Z' {
                s.options = OptionsItem::NoneSelected;
            }
        },
        Event::Input(Key::Down) => {
            if on_table_idle {
                if let Some(sel) = s.selected {
                    if sel >= count - 1 {
                        s.selected = Some(0);
                    } else {
                        s.selected = Some(sel + 1);
                    }
                }
            }
        },
        Event::Input(Key::Up) => {
            if on_table_idle {
                if let Some(sel) = s.selected {
                    if sel > 0 {
                        s.selected = Some(sel - 1);
                    } else {
                        s.selected = Some(count - 1);
                    }
                }
            }
        },
        Event::Input(Key::Right) => {
            if s.options == OptionsItem::Sort {
                s.field = match s.field {
                    FieldItem::Pid => FieldItem::Name,
                    FieldItem::Name => FieldItem::State,
                    FieldItem::State => FieldItem::ParentPid,
                    FieldItem::ParentPid => FieldItem::Priority,
                    FieldItem::Priority => FieldItem::Niceness,
                    FieldItem::Niceness => FieldItem::UserId,
                    FieldItem::UserId => FieldItem::Memory,
                    FieldItem::Memory => FieldItem::CpuTime,
                    FieldItem::CpuTime => FieldItem::OpenFiles,
                    FieldItem::OpenFiles => FieldItem::Exit,
                    FieldItem::Exit => FieldItem::Pid,
                };
            }
        },
        Event::Input(Key::Left) => {
            if s.options == OptionsItem::Sort {
                s.field = match s.field {
                    FieldItem::Pid => FieldItem::Exit,
                    FieldItem::Name => FieldItem::Pid,
                    FieldItem::State => FieldItem::Name,
                    FieldItem::ParentPid => FieldItem::State,
                    FieldItem::Priority => FieldItem::ParentPid,
                    FieldItem::Niceness => FieldItem::Priority,
                    FieldItem::UserId => FieldItem::Niceness,
                    FieldItem::Memory => FieldItem::UserId,
                    FieldItem::CpuTime => FieldItem::Memory,
                    FieldItem::OpenFiles => FieldItem::CpuTime,
                    FieldItem::Exit => FieldItem::OpenFiles,
                };
            }
        },
        Event::Input(Key::Enter) => {
            if s.options == OptionsItem::Sort {
                match s.field {
                    FieldItem::Pid => s.sort_field = String::from_str("pid"),
                    FieldItem::Name => s.sort_field = String::from_str("name"),
                    FieldItem::State => s.sort_field = String::from_str("state"),
                    FieldItem::ParentPid => s.sort_field = String::from_str("parent_pid"),
                    FieldItem::Priority => s.sort_field = String::from_str("priority"),
                    FieldItem::Niceness => s.sort_field = String::from_str("niceness"),
                    FieldItem::UserId => s.sort_field = String::from_str("user_id"),
                    FieldItem::Memory => s.sort_field = String::from_str("memory"),
                    FieldItem::CpuTime => s.sort_field = String::from_str("cpu_time"),
                    FieldItem::OpenFiles => s.sort_field = String::from_str("open_files"),
                    FieldItem::Exit => {
                        s.options = OptionsItem::NoneSelected;
                        s.sort_field = String::new();
                    },
                }
            }
        },
        Event::Input(_) => {},
    }
    (s, action)
}

/// Applies a typed key.
pub fn handle_editing_event(state: AppState, e: Event) -> (r: AppState)
    requires
        is_typing(state@),
    ensures
        r@ == editing_step(state@, e),
{
    let mut s = state;
    let ghost f = s@.input_field;
    match e {
        Event::Input(Key::Enter) => {
            let typed = s.input_field.input.clone();
            s.input_field.input = String::new();
            s.input_field.messages.push(typed);
            assert(s@.input_field.messages =~= f.messages.push(f.input));
        },
        Event::Input(Key::Char(c)) => {
            push_char(&mut s.input_field.input, c);
        },
        Event::Input(Key::Backspace) => {
            let _ = pop_char(&mut s.input_field.input);
        },
        Event::Input(Key::Esc) => {
            s.input_field.input = String::new();
            s.input_mode = InputMode::Normal;
        },
        _ => {},
    }
    s
}


/// What every state of the interface satisfies: the history holds at least
/// one entry (the bars show its last), and typing happens only with the
/// filter or the search bar open.
pub open spec fn ui_invariant(s: AppView) -> bool {
    &&& s.input_field.messages.len() >= 1
    &&& s.input_mode == InputMode::Editing ==> (s.options == OptionsItem::Filter || s.options
        == OptionsItem::Search)
}

/// The interface starts in a state that satisfies the invariant.
pub proof fn lemma_initial_invariant()
    ensures
        ui_invariant(initial_view()),
{
}

/// Every steering key and every typed key keeps the invariant, and in a
/// state that satisfies it the interface always waits for one kind of key
/// or the other.
pub proof fn lemma_steps_keep_invariant(s: AppView, e: Event, count: usize)
    requires
        ui_invariant(s),
    ensures
        is_steering(s) || is_typing(s),
        is_steering(s) ==> ui_invariant(normal_step(s, e, count).0),
        is_typing(s) ==> ui_invariant(editing_step(s, e)),
{
}

/// The highlight never leaves the table: a highlighted row below `count`
/// stays below it after any steering key.
pub proof fn lemma_highlight_in_range(s: AppView, e: Event, count: usize)
    requires
        is_steering(s),
        s.selected matches Some(x) && x < count,
    ensures
        normal_step(s, e, count).0.selected matches Some(y) && y < count,
{
}

/// Moving the highlight down and then up, or up and then down, returns to
/// the same state.
pub proof fn lemma_up_undoes_down(s: AppView, count: usize)
    requires
        is_steering(s),
        s.menu == MenuItem::Table,
        s.options == OptionsItem::NoneSelected,
        s.selected matches Some(x) && x < count,
    ensures
        normal_step(normal_step(s, Event::Input(Key::Down), count).0, Event::Input(Key::Up), count).0
            == s,
        normal_step(normal_step(s, Event::Input(Key::Up), count).0, Event::Input(Key::Down), count).0
            == s,
{
}

/// In the sort bar, Left undoes Right and Right undoes Left, and eleven
/// steps to the right come back to the same field.
pub proof fn lemma_field_cycle(f: FieldItem)
    ensures
        prev_field(next_field(f)) == f,
        next_field(prev_field(f)) == f,
        next_field(next_field(next_field(next_field(next_field(next_field(next_field(next_field(
            next_field(next_field(next_field(f)))))))))))  == f,
{
}

/// Typing a character and then Backspace leaves the state as it was.
pub proof fn lemma_backspace_undoes_typing(s: AppView, c: char)
    requires
        is_typing(s),
    ensures
        editing_step(editing_step(s, Event::Input(Key::Char(c))), Event::Input(Key::Backspace))
            == s,
{
    let t = editing_step(s, Event::Input(Key::Char(c)));
    assert(t.input_field.input.drop_last() =~= s.input_field.input);
}

/// Each screen, option bar and sort field has its own position.
pub proof fn lemma_positions_distinct(m1: MenuItem, m2: MenuItem, o1: OptionsItem, o2: OptionsItem, f1: FieldItem, f2: FieldItem)
    ensures
        menu_index(m1) == menu_index(m2) ==> m1 == m2,
        options_index(o1) == options_index(o2) ==> o1 == o2,
        field_index(f1) == field_index(f2) ==> f1 == f2,
        menu_index(m1) < 3,
        options_index(o1) < 6,
        field_index(f1) < 11,
{
}


/// The steering keys as the interface documents them, in either case
/// except 'e'/'E': 'q' quits leaving the state alone; 'h', 'd' and 'g' show
/// the home screen, the table and the graphs with no bar open; 't'
/// terminates; 'x' and 'z' close the bar; on the table with no bar open
/// 's' opens the sort bar, 'p' the priority bar, and 'f' and 'e' start
/// typing into the filter and search bars; 'E' starts typing into the
/// search bar on the table unless that bar is already open.
pub proof fn lemma_key_bindings(s: AppView, c: char, count: usize)
    requires
        is_steering(s),
    ensures
        ({
            let (t, a) = normal_step(s, Event::Input(Key::Char(c)), count);
            let idle = s.menu == MenuItem::Table && s.options == OptionsItem::NoneSelected;
            &&& (c == 'q' || c == 'Q') ==> t == s && a == Action::Quit
            &&& (c == 'h' || c == 'H') ==> t.menu == MenuItem::Home && t.options
                == OptionsItem::NoneSelected && a == Action::Continue
            &&& (c == 'd' || c == 'D') ==> t.menu == MenuItem::Table && t.options
                == OptionsItem::NoneSelected && a == Action::Continue
            &&& (c == 'g' || c == 'G') ==> t.menu == MenuItem::Graphs && t.options
                == OptionsItem::NoneSelected && a == Action::Continue
            &&& (c == 't' || c == 'T') ==> a == Action::Terminate
            &&& (c == 'x' || c == 'X' || c == 'z' || c == 'Z') ==> t.options
                == OptionsItem::NoneSelected && a == Action::Continue
            &&& (c == 's' || c == 'S') && idle ==> t.options == OptionsItem::Sort
            &&& (c == 'p' || c == 'P') && idle ==> t.options == OptionsItem::SetPriority
            &&& (c == 'f' || c == 'F') && idle ==> t.options == OptionsItem::Filter && t.input_mode
                == InputMode::Editing
            &&& c == 'e' && idle ==> t.options == OptionsItem::Search && t.input_mode
                == InputMode::Editing
            &&& c == 'E' && s.menu == MenuItem::Table && s.options != OptionsItem::Search
                ==> t.options == OptionsItem::Search && t.input_mode == InputMode::Editing
            &&& t.menu == s.menu || c == 'h' || c == 'H' || c == 'd' || c == 'D' || c == 'g' || c
                == 'G'
            &&& t.selected == s.selected
            &&& t.sort_field == s.sort_field
        }),
{
}

/// Every steering letter but 'e' does the same in either case.
pub proof fn lemma_keys_case_insensitive(s: AppView, count: usize)
    requires
        is_steering(s),
    ensures
        normal_step(s, Event::Input(Key::Char('q')), count) == normal_step(s, Event::Input(Key::Char('Q')), count),
        normal_step(s, Event::Input(Key::Char('h')), count) == normal_step(s, Event::Input(Key::Char('H')), count),
        normal_step(s, Event::Input(Key::Char('d')), count) == normal_step(s, Event::Input(Key::Char('D')), count),
        normal_step(s, Event::Input(Key::Char('g')), count) == normal_step(s, Event::Input(Key::Char('G')), count),
        normal_step(s, Event::Input(Key::Char('s')), count) == normal_step(s, Event::Input(Key::Char('S')), count),
        normal_step(s, Event::Input(Key::Char('f')), count) == normal_step(s, Event::Input(Key::Char('F')), count),
        normal_step(s, Event::Input(Key::Char('p')), count) == normal_step(s, Event::Input(Key::Char('P')), count),
        normal_step(s, Event::Input(Key::Char('t')), count) == normal_step(s, Event::Input(Key::Char('T')), count),
        normal_step(s, Event::Input(Key::Char('x')), count) == normal_step(s, Event::Input(Key::Char('X')), count),
        normal_step(s, Event::Input(Key::Char('z')), count) == normal_step(s, Event::Input(Key::Char('Z')), count),
{
}

/// The typing keys: a character is appended unchanged, Backspace removes
/// the last character (if any), Enter moves the text to the end of the
/// history and empties it, Esc empties it and returns to steering with the
/// bar still open; no typing key changes the screen, the highlight or the
/// sort column.
pub proof fn lemma_typing_keys(s: AppView, e: Event)
    requires
        is_typing(s),
    ensures
        ({
            let t = editing_step(s, e);
            let before = s.input_field;
            &&& (e matches Event::Input(Key::Char(c)) ==> t.input_field.input == before.input.push(c)
                && t.input_field.messages == before.messages && t.input_mode == InputMode::Editing)
            &&& (e == Event::Input(Key::Backspace) ==> t.input_field.input.len() == (if before.input.len()
                > 0 { before.input.len() - 1 } else { 0 }) && t.input_field.input
                =~= before.input.take(t.input_field.input.len() as int))
            &&& (e == Event::Input(Key::Enter) ==> t.input_field.input.len() == 0
                && t.input_field.messages.len() == before.messages.len() + 1
                && t.input_field.messages.last() == before.input
                && t.input_field.messages.drop_last() == before.messages)
            &&& (e == Event::Input(Key::Esc) ==> t.input_field.input.len() == 0 && t.input_mode
                == InputMode::Normal && t.options == s.options)
            &&& t.menu == s.menu
            &&& t.selected == s.selected
            &&& t.sort_field == s.sort_field
            &&& t.field == s.field
        }),
{
    let t = editing_step(s, e);
    if e == Event::Input(Key::Enter) {
        assert(t.input_field.messages.drop_last() =~= s.input_field.messages);
    }
}

/// The sort bar's entry for each field.
pub open spec fn field_title(f: FieldItem) -> Seq<char> {
    match f {
        FieldItem::Pid => "Process ID"@,
        FieldItem::Name => "Name"@,
        FieldItem::State => "State"@,
        FieldItem::ParentPid => "Parent Process ID"@,
        FieldItem::Priority => "Priority"@,
        FieldItem::Niceness => "Niceness"@,
        FieldItem::UserId => "User ID"@,
        FieldItem::Memory => "Memory"@,
        FieldItem::CpuTime => "CPU Time"@,
        FieldItem::OpenFiles => "Open Files"@,
        FieldItem::Exit => "Exit"@,
    }
}

/// The menu's entry for each screen.
pub open spec fn menu_title(m: MenuItem) -> Seq<char> {
    match m {
        MenuItem::Home => "Home"@,
        MenuItem::Table => "Display Process Table"@,
        MenuItem::Graphs => "Graphs & Charts"@,
    }
}


/// On the table with no bar open, Down highlights the next row (the first
/// after the last) and Up the previous one (the last before the first);
/// neither changes anything else.
pub proof fn lemma_highlight_moves(s: AppView, count: usize)
    requires
        is_steering(s),
        s.menu == MenuItem::Table,
        s.options == OptionsItem::NoneSelected,
        s.selected matches Some(x) && x < count,
    ensures
        ({
            let x = s.selected->0;
            let down = normal_step(s, Event::Input(Key::Down), count);
            let up = normal_step(s, Event::Input(Key::Up), count);
            &&& down.0.selected == Some(if x + 1 < count { (x + 1) as usize } else { 0usize })
            &&& up.0.selected == Some(if x > 0 { (x - 1) as usize } else { (count - 1) as usize })
            &&& down.0 == AppView { selected: down.0.selected, ..s }
            &&& up.0 == AppView { selected: up.0.selected, ..s }
            &&& down.1 == Action::Continue && up.1 == Action::Continue
        }),
{
}

/// In the sort bar Right moves to the next position and Left to the
/// previous one, wrapping around the eleven fields.
pub proof fn lemma_sort_bar_moves(s: AppView, count: usize)
    requires
        is_steering(s),
        s.options == OptionsItem::Sort,
    ensures
        field_index(normal_step(s, Event::Input(Key::Right), count).0.field) == (field_index(s.field)
            + 1) % 11,
        field_index(normal_step(s, Event::Input(Key::Left), count).0.field) == (field_index(s.field)
            + 10) % 11,
{
}

} // verus!
