//! The texts the screens show that are computed rather than fixed: the
//! entries of the tab bars, split into their highlighted first letter and
//! the rest, and the lines describing the system.

use vstd::prelude::*;
use vstd::string::*;
use crate::table::texts;
use crate::ui::{FieldItem, MenuItem, field_index, menu_index, field_title, menu_title};

verus! {

/// The tab bars of the interface.
#[derive(Copy, Clone, Debug, PartialEq, Eq, Structural)]
pub enum TabBar {
    /// The menu at the top.
    Menu,
    /// The options at the bottom of the home screen.
    HomeOptions,
    /// The options at the bottom of the process table.
    TableOptions,
    /// The options at the bottom of the graphs screen.
    GraphOptions,
    /// The fields of the sort bar.
    SortFields,
}

/// The entries of a tab bar, in order.
pub open spec fn tab_titles_spec(bar: TabBar) -> Seq<Seq<char>> {
    match bar {
        TabBar::Menu => seq!["Home"@, "Display Process Table"@, "Graphs & Charts"@],
        TabBar::HomeOptions => seq!["Display Process Table"@, "Display Graph & Charts"@, "Quit"@],
        TabBar::TableOptions => seq![
            "Sort"@,
            "Filter"@,
            "Search"@,
            "Terminate Process"@,
            "Set Priority"@,
            "Quit"@,
        ],
        TabBar::GraphOptions => seq!["Coming Soon"@, "Quit"@],
        TabBar::SortFields => seq![
            "Process ID"@,
            "Name"@,
            "State"@,
            "Parent Process ID"@,
            "Priority"@,
            "Niceness"@,
            "User ID"@,
            "Memory"@,
            "CPU Time"@,
            "Open Files"@,
            "Exit"@,
        ],
    }
}

fn push_title(v: &mut Vec<String>, t: &str)
    ensures
        texts(final(v)@) == texts(old(v)@).push(t@),
{
    let ghost before = v@;
    v.push(String::from_str(t));
    assert(texts(v@) =~= texts(before).push(t@));
}

/// The entries of a tab bar (see `tab_titles_spec`).
pub fn tab_titles(bar: TabBar) -> (titles: Vec<String>)
    ensures
        texts(titles@) == tab_titles_spec(bar),
{
    let mut v: Vec<String> = Vec::new();
    assert(texts(v@) =~= seq![]);
    match bar {
        TabBar::Menu => {
            push_title(&mut v, "Home");
            push_title(&mut v, "Display Process Table");
            push_title(&mut v, "Graphs & Charts");
        },
        TabBar::HomeOptions => {
            push_title(&mut v, "Display Process Table");
            push_title(&mut v, "Display Graph & Charts");
            push_title(&mut v, "Quit");
        },
        TabBar::TableOptions => {
            push_title(&mut v, "Sort");
            push_title(&mut v, "Filter");
            push_title(&mut v, "Search");
            push_title(&mut v, "Terminate Process");
            push_title(&mut v, "Set Priority");
            push_title(&mut v, "Quit");
        },
        TabBar::GraphOptions => {
            push_title(&mut v, "Coming Soon");
            push_title(&mut v, "Quit");
        },
        TabBar::SortFields => {
            push_title(&mut v, "Process ID");
            push_title(&mut v, "Name");
            push_title(&mut v, "State");
            push_title(&mut v, "Parent Process ID");
            push_title(&mut v, "Priority");
            push_title(&mut v, "Niceness");
            push_title(&mut v, "User ID");
            push_title(&mut v, "Memory");
            push_title(&mut v, "CPU Time");
            push_title(&mut v, "Open Files");
            push_title(&mut v, "Exit");
        },
    }
    assert(texts(v@) =~= tab_titles_spec(bar));
    v
}

/// A label can be split after its first byte: it is not empty and its
/// first character is ASCII.
pub open spec fn splittable(label: Seq<char>) -> bool {
    label.len() > 0 && (label[0] as int) < 128
}

/// A label split into its first character and the rest, as `split_at(1)`
/// splits it.
pub fn split_label(label: &str) -> (parts: (String, String))
    requires
        splittable(label@),
    ensures
        parts.0@ == label@.subrange(0, 1),
        parts.1@ == label@.subrange(1, label@.len() as int),
{
    let n = label.unicode_len();
    let first = label.substring_char(0, 1);
    let rest = label.substring_char(1, n);
    (String::from_str(first), String::from_str(rest))
}

/// Every entry of every tab bar can be split after its first letter.
pub proof fn lemma_titles_splittable(bar: TabBar, k: int)
    requires
        0 <= k < tab_titles_spec(bar).len(),
    ensures
        splittable(tab_titles_spec(bar)[k]),
{
    reveal_strlit("Home");
    reveal_strlit("Display Process Table");
    reveal_strlit("Graphs & Charts");
    reveal_strlit("Display Graph & Charts");
    reveal_strlit("Quit");
    reveal_strlit("Sort");
    reveal_strlit("Filter");
    reveal_strlit("Search");
    reveal_strlit("Terminate Process");
    reveal_strlit("Set Priority");
    reveal_strlit("Coming Soon");
    reveal_strlit("Process ID");
    reveal_strlit("Name");
    reveal_strlit("State");
    reveal_strlit("Parent Process ID");
    reveal_strlit("Priority");
    reveal_strlit("Niceness");
    reveal_strlit("User ID");
    reveal_strlit("Memory");
    reveal_strlit("CPU Time");
    reveal_strlit("Open Files");
    reveal_strlit("Exit");
}

/// The entries of a tab bar, each split into its first letter (shown
/// highlighted) and the rest.
pub fn tab_spans(bar: TabBar) -> (spans: Vec<(String, String)>)
    ensures
        spans.len() == tab_titles_spec(bar).len(),
        forall|k: int|
            0 <= k < spans.len() ==> {
                let t = #[trigger] tab_titles_spec(bar)[k];
                &&& spans@[k].0@ == t.subrange(0, 1)
                &&& spans@[k].1@ == t.subrange(1, t.len() as int)
            },
{
    let titles = tab_titles(bar);
    let mut spans: Vec<(String, String)> = Vec::new();
    let n = titles.len();
    let mut i: usize = 0;
    while i < n
        invariant
            n == titles.len(),
            texts(titles@) == tab_titles_spec(bar),
            i <= n,
            spans.len() == i,
            forall|k: int|
                0 <= k < i ==> {
                    let t = #[trigger] tab_titles_spec(bar)[k];
                    &&& spans@[k].0@ == t.subrange(0, 1)
                    &&& spans@[k].1@ == t.subrange(1, t.len() as int)
                },
        decreases n - i,
    {
        proof {
            lemma_titles_splittable(bar, i as int);
            assert(titles@[i as int]@ == tab_titles_spec(bar)[i as int]);
        }
        spans.push(split_label(titles[i].as_str()));
        i = i + 1;
    }
    spans
}

/// The lines describing the system, from its name, kernel version, OS
/// version and host name ("   " is the gap between label and value).
pub open spec fn system_info_spec(name: Seq<char>, kernel: Seq<char>, os: Seq<char>, host: Seq<char>) -> Seq<
    Seq<char>,
> {
    let gap = "   "@;
    seq![
        "   About your system:"@,
        Seq::empty(),
        "System name:"@ + gap + gap + gap + gap + name,
        Seq::empty(),
        "System kernel version:  "@ + kernel,
        Seq::empty(),
        "System OS version:"@ + gap + gap + os,
        Seq::empty(),
        "System host name: "@ + gap + gap + host,
    ]
}

/// The lines describing the system (see `system_info_spec`).
pub fn system_info_lines(name: &str, kernel: &str, os: &str, host: &str) -> (lines: Vec<String>)
    ensures
        texts(lines@) == system_info_spec(name@, kernel@, os@, host@),
{
    let gap = "   ";
    let mut lines: Vec<String> = Vec::new();
    lines.push(String::from_str("   About your system:"));
    lines.push(String::new());
    let mut l = String::from_str("System name:");
    l.append(gap);
    l.append(gap);
    l.append(gap);
    l.append(gap);
    l.append(name);
    lines.push(l);
    lines.push(String::new());
    let mut l = String::from_str("System kernel version:  ");
    l.append(kernel);
    lines.push(l);
    lines.push(String::new());
    let mut l = String::from_str("System OS version:");
    l.append(gap);
    l.append(gap);
    l.append(os);
    lines.push(l);
    lines.push(String::new());
    let mut l = String::from_str("System host name: ");
    l.append(gap);
    l.append(gap);
    l.append(host);
    lines.push(l);
    assert(texts(lines@) =~= system_info_spec(name@, kernel@, os@, host@));
    lines
}


/// The sort bar highlights, at the position of the chosen field, that
/// field's entry, and the menu highlights, at the position of the shown
/// screen, that screen's entry; the bars have one entry per field or screen.
pub proof fn lemma_bars_match_items(f: FieldItem, m: MenuItem)
    ensures
        tab_titles_spec(TabBar::SortFields).len() == 11,
        tab_titles_spec(TabBar::SortFields)[field_index(f) as int] == field_title(f),
        tab_titles_spec(TabBar::Menu).len() == 3,
        tab_titles_spec(TabBar::Menu)[menu_index(m) as int] == menu_title(m),
{
}

} // verus!
