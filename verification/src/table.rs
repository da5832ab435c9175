//! The process table: ordering by a chosen column, the search filter, the
//! cells of each row, the processes to terminate, and the ordering and rows
//! of the one-shot listing.

use vstd::prelude::*;
use crate::order::{
    SortKey, Direction, stable_order, stable_sorted, arrange, is_stable_order, stable_order_spec,
    key_lt, goes_before, lemma_stable_order_exists, lemma_goes_before_order, is_permutation, key_equiv, lemma_resort_reversed,
};
use crate::procs::{Proc, ProcView};
use crate::ui::{AppView, Event, FieldItem, Key, OptionsItem, field_sort_name, is_steering, normal_step};
use crate::text::{signed_decimal, int_to_string, text_equal, push_char, text_lt};

verus! {

/// The column the process table is ordered by.
#[derive(PartialEq, Eq, Structural, Clone, Copy, Debug)]
pub enum SortColumn {
    Pid,
    Name,
    State,
    ParentId,
    Priority,
    Niceness,
    UserId,
    Memory,
    CpuTime,
    OpenFiles,
}

/// The column a sort field names: "pid", "name", "state", "parent_id" (or
/// "parent_pid", the name the sort bar sets for it), "priority",
/// "niceness", "user_id", "memory", "cpu_time" or "open_files"; any other
/// name (the empty one too) orders by CPU time.
pub open spec fn column_named(s: Seq<char>) -> SortColumn {
    if s == "pid"@ {
        SortColumn::Pid
    } else if s == "name"@ {
        SortColumn::Name
    } else if s == "state"@ {
        SortColumn::State
    } else if s == "parent_id"@ || s == "parent_pid"@ {
        SortColumn::ParentId
    } else if s == "priority"@ {
        SortColumn::Priority
    } else if s == "niceness"@ {
        SortColumn::Niceness
    } else if s == "user_id"@ {
        SortColumn::UserId
    } else if s == "memory"@ {
        SortColumn::Memory
    } else if s == "open_files"@ {
        SortColumn::OpenFiles
    } else {
        SortColumn::CpuTime
    }
}

/// The column a sort field names (see `column_named`).
pub fn column_from_name(name: &str) -> (c: SortColumn)
    ensures
        c == column_named(name@),
{
    if text_equal(name, "pid") {
        SortColumn::Pid
    } else if text_equal(name, "name") {
        SortColumn::Name
    } else if text_equal(name, "state") {
        SortColumn::State
    } else if text_equal(name, "parent_id") || text_equal(name, "parent_pid") {
        SortColumn::ParentId
    } else if text_equal(name, "priority") {
        SortColumn::Priority
    } else if text_equal(name, "niceness") {
        SortColumn::Niceness
    } else if text_equal(name, "user_id") {
        SortColumn::UserId
    } else if text_equal(name, "memory") {
        SortColumn::Memory
    } else if text_equal(name, "open_files") {
        SortColumn::OpenFiles
    } else {
        SortColumn::CpuTime
    }
}

/// The key of a row for a column: numbers by value, characters by code
/// point, name and CPU time as text.
pub open spec fn row_key(col: SortColumn, p: Proc) -> SortKey {
    match col {
        SortColumn::Pid => SortKey::Number(p.pid as i128),
        SortColumn::Name => SortKey::Text(p.name),
        SortColumn::State => SortKey::Number((p.state as u32) as i128),
        SortColumn::ParentId => SortKey::Number(p.parent_id as i128),
        SortColumn::Priority => SortKey::Number(p.priority as i128),
        SortColumn::Niceness => SortKey::Number(p.niceness as i128),
        SortColumn::UserId => SortKey::Number(p.user_id as i128),
        SortColumn::Memory => SortKey::Number(p.memory as i128),
        SortColumn::CpuTime => SortKey::Text(p.cpu_time),
        SortColumn::OpenFiles => SortKey::Number(p.open_files as i128),
    }
}

pub open spec fn row_keys(col: SortColumn, procs: Seq<Proc>) -> Seq<SortKey> {
    procs.map_values(|p: Proc| row_key(col, p))
}

/// The table as it is shown: stably sorted ascending by the column, then
/// reversed, so the largest keys come first and rows with equal keys
/// stand in the reverse of their listed order.
pub open spec fn table_order(col: SortColumn, procs: Seq<Proc>) -> Seq<Proc> {
    stable_sorted(procs, row_keys(col, procs), Direction::Ascending).reverse()
}

fn row_key_exec(col: SortColumn, p: &Proc) -> (k: SortKey)
    ensures
        k == row_key(col, *p),
{
    match col {
        SortColumn::Pid => SortKey::Number(p.pid as i128),
        SortColumn::Name => SortKey::Text(p.name.clone()),
        SortColumn::State => SortKey::Number((p.state as u32) as i128),
        SortColumn::ParentId => SortKey::Number(p.parent_id as i128),
        SortColumn::Priority => SortKey::Number(p.priority as i128),
        SortColumn::Niceness => SortKey::Number(p.niceness as i128),
        SortColumn::UserId => SortKey::Number(p.user_id as i128),
        SortColumn::Memory => SortKey::Number(p.memory as i128),
        SortColumn::CpuTime => SortKey::Text(p.cpu_time.clone()),
        SortColumn::OpenFiles => SortKey::Number(p.open_files as i128),
    }
}

/// Orders the processes for the table by the column that `sort_field`
/// names: a stable ascending sort, then reversed.
pub fn sort(sort_field: &str, procs: Vec<Proc>) -> (sorted: Vec<Proc>)
    ensures
        sorted@ == table_order(column_named(sort_field@), procs@),
        sorted.len() == procs.len(),
{
    let col = column_from_name(sort_field);
    let n = procs.len();
    let mut keys: Vec<SortKey> = Vec::new();
    let mut i: usize = 0;
    while i < n
        invariant
            n == procs.len(),
            i <= n,
            keys.len() == i,
            forall|k: int| 0 <= k < i ==> keys@[k] == row_key(col, #[trigger] procs@[k]),
        decreases n - i,
    {
        keys.push(row_key_exec(col, &procs[i]));
        i = i + 1;
    }
    assert(keys@ =~= row_keys(col, procs@));
    let order = stable_order(&keys, Direction::Ascending);
    let mut out: Vec<Proc> = Vec::new();
    let mut k: usize = 0;
    while k < n
        invariant
            n == procs.len(),
            is_stable_order(keys@, Direction::Ascending, order@),
            keys.len() == n,
            k <= n,
            out.len() == k,
            forall|j: int| 0 <= j < k ==> out@[j] == procs@[order@[n - 1 - j] as int],
        decreases n - k,
    {
        let idx = order[n - 1 - k];
        out.push(procs[idx].clone());
        k = k + 1;
    }
    assert(out@ =~= arrange(procs@, order@).reverse());
    out
}

/// The table puts larger keys first: no row's key is below the key of a
/// row after it.
pub proof fn lemma_table_order_descending(col: SortColumn, procs: Seq<Proc>, i: int, j: int)
    requires
        procs.len() <= usize::MAX,
        0 <= i < j < procs.len(),
    ensures
        !key_lt(row_key(col, table_order(col, procs)[i]), row_key(col, table_order(col, procs)[j])),
{
    let keys = row_keys(col, procs);
    lemma_stable_order_exists(keys, Direction::Ascending);
    let p = stable_order_spec(keys, Direction::Ascending);
    let n = procs.len();
    let a = p[n - 1 - j] as int;
    let b = p[n - 1 - i] as int;
    assert(goes_before(keys, Direction::Ascending, a, b));
    assert(keys[a] == row_key(col, procs[a]));
    assert(keys[b] == row_key(col, procs[b]));
    lemma_goes_before_order(keys, Direction::Ascending, a, b, a);
}

/// The table ordered by a column lists the values of that column's field
/// from largest to smallest (names and CPU times as Rust orders strings).
pub proof fn lemma_table_order_by_field(col: SortColumn, procs: Seq<Proc>, i: int, j: int)
    requires
        procs.len() <= usize::MAX,
        0 <= i < j < procs.len(),
    ensures
        ({
            let a = table_order(col, procs)[i];
            let b = table_order(col, procs)[j];
            match col {
                SortColumn::Pid => a.pid >= b.pid,
                SortColumn::Name => !text_lt(a.name@, b.name@),
                SortColumn::State => (a.state as u32) >= (b.state as u32),
                SortColumn::ParentId => a.parent_id >= b.parent_id,
                SortColumn::Priority => a.priority >= b.priority,
                SortColumn::Niceness => a.niceness >= b.niceness,
                SortColumn::UserId => a.user_id >= b.user_id,
                SortColumn::Memory => a.memory >= b.memory,
                SortColumn::CpuTime => !text_lt(a.cpu_time@, b.cpu_time@),
                SortColumn::OpenFiles => a.open_files >= b.open_files,
            }
        }),
{
    lemma_table_order_descending(col, procs, i, j);
}

/// `sort` orders by the field its name names, largest first: "pid",
/// "name", "state", "parent_id" or "parent_pid", "priority", "niceness",
/// "user_id", "memory", "open_files", and by CPU time for any other name.
pub proof fn lemma_sort_by_named_field(name: Seq<char>, procs: Seq<Proc>, i: int, j: int)
    requires
        procs.len() <= usize::MAX,
        0 <= i < j < procs.len(),
    ensures
        ({
            let a = table_order(column_named(name), procs)[i];
            let b = table_order(column_named(name), procs)[j];
            &&& name == "pid"@ ==> a.pid >= b.pid
            &&& name == "name"@ ==> !text_lt(a.name@, b.name@)
            &&& name == "state"@ ==> (a.state as u32) >= (b.state as u32)
            &&& (name == "parent_id"@ || name == "parent_pid"@) ==> a.parent_id >= b.parent_id
            &&& name == "priority"@ ==> a.priority >= b.priority
            &&& name == "niceness"@ ==> a.niceness >= b.niceness
            &&& name == "user_id"@ ==> a.user_id >= b.user_id
            &&& name == "memory"@ ==> a.memory >= b.memory
            &&& name == "open_files"@ ==> a.open_files >= b.open_files
            &&& (name != "pid"@ && name != "name"@ && name != "state"@ && name != "parent_id"@
                && name != "parent_pid"@ && name != "priority"@ && name != "niceness"@ && name
                != "user_id"@ && name != "memory"@ && name != "open_files"@) ==> !text_lt(
                a.cpu_time@,
                b.cpu_time@,
            )
        }),
{
    lemma_sort_names_distinct();
    lemma_table_order_by_field(column_named(name), procs, i, j);
}

/// The names of the sort columns are distinct texts.
pub proof fn lemma_sort_names_distinct()
    ensures
        "pid"@ != "name"@ && "pid"@ != "state"@ && "pid"@ != "parent_id"@ && "pid"@ != "parent_pid"@,
        "pid"@ != "priority"@ && "pid"@ != "niceness"@ && "pid"@ != "user_id"@ && "pid"@ != "memory"@,
        "pid"@ != "open_files"@ && "pid"@ != "cpu_time"@,
        "name"@ != "state"@ && "name"@ != "parent_id"@ && "name"@ != "parent_pid"@ && "name"@ != "priority"@,
        "name"@ != "niceness"@ && "name"@ != "user_id"@ && "name"@ != "memory"@ && "name"@ != "open_files"@,
        "name"@ != "cpu_time"@,
        "state"@ != "parent_id"@ && "state"@ != "parent_pid"@ && "state"@ != "priority"@ && "state"@ != "niceness"@,
        "state"@ != "user_id"@ && "state"@ != "memory"@ && "state"@ != "open_files"@ && "state"@ != "cpu_time"@,
        "parent_id"@ != "parent_pid"@ && "parent_id"@ != "priority"@ && "parent_id"@ != "niceness"@,
        "parent_id"@ != "user_id"@ && "parent_id"@ != "memory"@ && "parent_id"@ != "open_files"@,
        "parent_id"@ != "cpu_time"@,
        "parent_pid"@ != "priority"@ && "parent_pid"@ != "niceness"@ && "parent_pid"@ != "user_id"@,
        "parent_pid"@ != "memory"@ && "parent_pid"@ != "open_files"@ && "parent_pid"@ != "cpu_time"@,
        "priority"@ != "niceness"@ && "priority"@ != "user_id"@ && "priority"@ != "memory"@,
        "priority"@ != "open_files"@ && "priority"@ != "cpu_time"@,
        "niceness"@ != "user_id"@ && "niceness"@ != "memory"@ && "niceness"@ != "open_files"@,
        "niceness"@ != "cpu_time"@,
        "user_id"@ != "memory"@ && "user_id"@ != "open_files"@ && "user_id"@ != "cpu_time"@,
        "memory"@ != "open_files"@ && "memory"@ != "cpu_time"@,
        "open_files"@ != "cpu_time"@,
{
    reveal_strlit("pid");
    reveal_strlit("name");
    reveal_strlit("state");
    reveal_strlit("parent_id");
    reveal_strlit("parent_pid");
    reveal_strlit("priority");
    reveal_strlit("niceness");
    reveal_strlit("user_id");
    reveal_strlit("memory");
    reveal_strlit("open_files");
    reveal_strlit("cpu_time");
    assert("pid"@[0] != "name"@[0] && "pid"@[0] != "state"@[0] && "pid"@[0] != "memory"@[0]);
    assert("pid"@[0] != "niceness"@[0] && "pid"@[0] != "user_id"@[0] && "pid"@[0] != "open_files"@[0]);
    assert("pid"@[0] != "cpu_time"@[0]);
    assert("pid"@.len() != "parent_id"@.len() && "pid"@.len() != "parent_pid"@.len() && "pid"@.len() != "priority"@.len());
    assert("name"@[0] != "state"@[0] && "name"@[0] != "parent_id"@[0] && "name"@[0] != "parent_pid"@[0]);
    assert("name"@[0] != "priority"@[0] && "name"@.len() != "niceness"@.len() && "name"@[0] != "user_id"@[0]);
    assert("name"@[0] != "memory"@[0] && "name"@[0] != "open_files"@[0] && "name"@[0] != "cpu_time"@[0]);
    assert("state"@[0] != "parent_id"@[0] && "state"@[0] != "parent_pid"@[0] && "state"@[0] != "priority"@[0]);
    assert("state"@[0] != "niceness"@[0] && "state"@[0] != "user_id"@[0] && "state"@[0] != "memory"@[0]);
    assert("state"@[0] != "open_files"@[0] && "state"@[0] != "cpu_time"@[0]);
    assert("parent_id"@.len() != "parent_pid"@.len() && "parent_id"@[1] != "priority"@[1]);
    assert("parent_id"@[0] != "niceness"@[0] && "parent_id"@[0] != "user_id"@[0] && "parent_id"@[0] != "memory"@[0]);
    assert("parent_id"@[0] != "open_files"@[0] && "parent_id"@[0] != "cpu_time"@[0]);
    assert("parent_pid"@[1] != "priority"@[1] && "parent_pid"@[0] != "niceness"@[0] && "parent_pid"@[0] != "user_id"@[0]);
    assert("parent_pid"@[0] != "memory"@[0] && "parent_pid"@[0] != "open_files"@[0] && "parent_pid"@[0] != "cpu_time"@[0]);
    assert("priority"@[0] != "niceness"@[0] && "priority"@[0] != "user_id"@[0] && "priority"@[0] != "memory"@[0]);
    assert("priority"@[0] != "open_files"@[0] && "priority"@[0] != "cpu_time"@[0]);
    assert("niceness"@[0] != "user_id"@[0] && "niceness"@[0] != "memory"@[0] && "niceness"@[0] != "open_files"@[0]);
    assert("niceness"@[0] != "cpu_time"@[0]);
    assert("user_id"@[0] != "memory"@[0] && "user_id"@[0] != "open_files"@[0] && "user_id"@[0] != "cpu_time"@[0]);
    assert("memory"@[0] != "open_files"@[0] && "memory"@[0] != "cpu_time"@[0]);
    assert("open_files"@[0] != "cpu_time"@[0]);
}

/// The table is the listed rows rearranged: every row once, a row before
/// another exactly when its key is larger or, keys being equal, it was
/// listed later.
pub proof fn lemma_table_order_rearranges(col: SortColumn, procs: Seq<Proc>)
    requires
        procs.len() <= usize::MAX,
    ensures
        exists|q: Seq<usize>|
            {
                &&& is_permutation(q, procs.len())
                &&& table_order(col, procs) == arrange(procs, q)
                &&& forall|a: int, b: int|
                    0 <= a < b < procs.len() ==> goes_before(
                        row_keys(col, procs),
                        Direction::Ascending,
                        #[trigger] q[b] as int,
                        #[trigger] q[a] as int,
                    )
            },
{
    let keys = row_keys(col, procs);
    lemma_stable_order_exists(keys, Direction::Ascending);
    let p = stable_order_spec(keys, Direction::Ascending);
    let q = p.reverse();
    let n = procs.len();
    assert forall|x: usize| x < n implies #[trigger] q.contains(x) by {
        assert(p.contains(x));
        let m = choose|m: int| 0 <= m < p.len() && p[m] == x;
        assert(q[n - 1 - m] == x);
    }
    assert forall|k1: int, k2: int| 0 <= k1 < k2 < n implies #[trigger] q[k1] != #[trigger] q[k2] by {
        assert(p[n - 1 - k2] != p[n - 1 - k1]);
    }
    assert forall|a: int, b: int| 0 <= a < b < n implies goes_before(
        keys,
        Direction::Ascending,
        #[trigger] q[b] as int,
        #[trigger] q[a] as int,
    ) by {
        assert(goes_before(keys, Direction::Ascending, p[n - 1 - b] as int, p[n - 1 - a] as int));
    }
    assert(table_order(col, procs) =~= arrange(procs, q));
    assert(is_permutation(q, n));
}

/// Sorting the table again by the same column keeps the key at every
/// position and puts rows with equal keys back in their listed order: the
/// result is the stable descending sort of the listed rows.
pub proof fn lemma_sort_twice(col: SortColumn, procs: Seq<Proc>)
    requires
        procs.len() <= usize::MAX,
    ensures
        table_order(col, table_order(col, procs)) == stable_sorted(
            procs,
            row_keys(col, procs),
            Direction::Descending,
        ),
        table_order(col, table_order(col, procs)).len() == procs.len(),
        table_order(col, procs).len() == procs.len(),
        forall|k: int|
            0 <= k < procs.len() ==> key_equiv(
                row_key(col, #[trigger] table_order(col, table_order(col, procs))[k]),
                row_key(col, table_order(col, procs)[k]),
            ),
{
    let n = procs.len();
    let keys = row_keys(col, procs);
    lemma_resort_reversed(keys);
    lemma_stable_order_exists(keys, Direction::Ascending);
    let p = stable_order_spec(keys, Direction::Ascending);
    let rp = p.reverse();
    assert forall|k: int| 0 <= k < n implies #[trigger] rp[k] < n by {
        assert(p[n - 1 - k] < n);
    }
    let q = table_order(col, procs);
    assert(q =~= arrange(procs, rp));
    assert(row_keys(col, q) =~= arrange(keys, rp));
    let p2 = stable_order_spec(arrange(keys, rp), Direction::Ascending);
    lemma_stable_order_exists(arrange(keys, rp), Direction::Ascending);
    assert forall|k: int| 0 <= k < n implies #[trigger] p2[k] < n by {}
    let c = Seq::new(n, |k: int| rp[p2[n - 1 - k] as int]);
    let r = table_order(col, q);
    assert(r =~= arrange(q, p2).reverse());
    assert(r =~= arrange(procs, c));
    assert forall|k: int| 0 <= k < n implies key_equiv(
        row_key(col, #[trigger] r[k]),
        row_key(col, q[k]),
    ) by {
        assert(key_equiv(keys[c[k] as int], keys[rp[k] as int]));
    }
}

/// Filtering keeps, of the rows, those whose name is the searched text.
pub open spec fn name_matches(searched: Seq<char>) -> spec_fn(Proc) -> bool {
    |p: Proc| p.name@ == searched
}

/// The rows shown for a search: all of them when nothing is searched, else
/// those whose name is exactly the searched text.
pub open spec fn visible_spec(procs: Seq<Proc>, searched: Seq<char>) -> Seq<Proc> {
    if searched.len() == 0 {
        procs
    } else {
        procs.filter(name_matches(searched))
    }
}

proof fn lemma_filter_push<A>(s: Seq<A>, pred: spec_fn(A) -> bool, e: A)
    ensures
        s.push(e).filter(pred) == (if pred(e) {
            s.filter(pred).push(e)
        } else {
            s.filter(pred)
        }),
{
    reveal(Seq::filter);
    assert(s.push(e).drop_last() =~= s);
}

/// The rows shown for a search (see `visible_spec`).
pub fn visible_procs(procs: Vec<Proc>, searched: &String) -> (shown: Vec<Proc>)
    ensures
        shown@ == visible_spec(procs@, searched@),
{
    if searched.as_str().unicode_len() == 0 {
        return procs;
    }
    let mut shown: Vec<Proc> = Vec::new();
    let n = procs.len();
    let mut i: usize = 0;
    while i < n
        invariant
            n == procs.len(),
            i <= n,
            shown@ == procs@.take(i as int).filter(name_matches(searched@)),
        decreases n - i,
    {
        proof {
            lemma_filter_push(procs@.take(i as int), name_matches(searched@), procs@[i as int]);
            assert(procs@.take(i as int).push(procs@[i as int]) =~= procs@.take(i + 1));
        }
        if procs[i].name == *searched {
            shown.push(procs[i].clone());
        }
        i = i + 1;
    }
    assert(procs@.take(n as int) =~= procs@);
    shown
}

/// The texts of a row of strings.
pub open spec fn texts(v: Seq<String>) -> Seq<Seq<char>> {
    v.map_values(|s: String| s@)
}

/// The cells of a process's row: process ID, name, state, parent process
/// ID, priority, nice value, user ID, memory (KiB), CPU time, open files.
pub open spec fn proc_cells(p: ProcView) -> Seq<Seq<char>> {
    seq![
        signed_decimal(p.pid as int),
        p.name,
        seq![p.state],
        signed_decimal(p.parent_id as int),
        signed_decimal(p.priority as int),
        signed_decimal(p.niceness as int),
        signed_decimal(p.user_id as int),
        signed_decimal(p.memory as int),
        p.cpu_time,
        signed_decimal(p.open_files as int),
    ]
}

/// A one-character string.
pub fn char_to_string(c: char) -> (s: String)
    ensures
        s@ == seq![c],
{
    let mut s = String::new();
    push_char(&mut s, c);
    assert(s@ =~= seq![c]);
    s
}

/// The cells of a process's row (see `proc_cells`).
pub fn proc_row(p: &Proc) -> (row: Vec<String>)
    ensures
        texts(row@) == proc_cells(p@),
{
    let mut row: Vec<String> = Vec::new();
    row.push(int_to_string(p.pid as i128));
    row.push(p.name.clone());
    row.push(char_to_string(p.state));
    row.push(int_to_string(p.parent_id as i128));
    row.push(int_to_string(p.priority as i128));
    row.push(int_to_string(p.niceness as i128));
    row.push(int_to_string(p.user_id as i128));
    row.push(int_to_string(p.memory as i128));
    row.push(p.cpu_time.clone());
    row.push(int_to_string(p.open_files as i128));
    assert(texts(row@) =~= proc_cells(p@));
    row
}

/// The rows of the process table: ordered by the column `sort_field`
/// names, narrowed by the searched text, as cells. The row at `selected`
/// is the highlighted one and must exist.
pub fn table_rows(sort_field: &str, procs: Vec<Proc>, selected: usize, searched: &String) -> (rows:
    Vec<Vec<String>>)
    requires
        selected < procs.len(),
    ensures
        rows.len() == visible_spec(table_order(column_named(sort_field@), procs@), searched@).len(),
        forall|k: int|
            0 <= k < rows.len() ==> texts(#[trigger] rows@[k]@) == proc_cells(
                visible_spec(table_order(column_named(sort_field@), procs@), searched@)[k]@,
            ),
{
    let sorted = sort(sort_field, procs);
    let shown = visible_procs(sorted, searched);
    let mut rows: Vec<Vec<String>> = Vec::new();
    let n = shown.len();
    let mut i: usize = 0;
    while i < n
        invariant
            n == shown.len(),
            i <= n,
            rows.len() == i,
            forall|k: int| 0 <= k < i ==> texts(#[trigger] rows@[k]@) == proc_cells(shown@[k]@),
        decreases n - i,
    {
        rows.push(proc_row(&shown[i]));
        i = i + 1;
    }
    rows
}

/// The process IDs to terminate for the highlighted row: one entry for each
/// row of the ordered table whose process ID is the highlighted one's.
pub open spec fn termination_spec(sorted: Seq<Proc>, selected: int) -> Seq<i32> {
    sorted.filter(|p: Proc| p.pid == sorted[selected].pid).map_values(|p: Proc| p.pid)
}

/// The process IDs to terminate for the highlighted row of the table
/// ordered by `sort_field` (see `termination_spec`). The row must exist.
pub fn termination_targets(sort_field: &str, procs: Vec<Proc>, selected: usize) -> (pids: Vec<i32>)
    requires
        selected < procs.len(),
    ensures
        pids@ == termination_spec(table_order(column_named(sort_field@), procs@), selected as int),
{
    let sorted = sort(sort_field, procs);
    let target = sorted[selected].pid;
    let ghost pred = |p: Proc| p.pid == sorted@[selected as int].pid;
    let mut pids: Vec<i32> = Vec::new();
    let n = sorted.len();
    let mut i: usize = 0;
    while i < n
        invariant
            n == sorted.len(),
            i <= n,
            target == sorted@[selected as int].pid,
            pred == (|p: Proc| p.pid == sorted@[selected as int].pid),
            pids@ == sorted@.take(i as int).filter(pred).map_values(|p: Proc| p.pid),
        decreases n - i,
    {
        proof {
            lemma_filter_push(sorted@.take(i as int), pred, sorted@[i as int]);
            assert(sorted@.take(i as int).push(sorted@[i as int]) =~= sorted@.take(i + 1));
        }
        if sorted[i].pid == target {
            pids.push(target);
            proof {
                let f = sorted@.take(i as int).filter(pred);
                assert(f.push(sorted@[i as int]).map_values(|p: Proc| p.pid) =~= f.map_values(
                    |p: Proc| p.pid,
                ).push(target));
            }
        }
        i = i + 1;
    }
    assert(sorted@.take(n as int) =~= sorted@);
    pids
}

/// The column of a field of the sort bar (Exit has none).
pub open spec fn field_column(f: FieldItem) -> SortColumn {
    match f {
        FieldItem::Pid => SortColumn::Pid,
        FieldItem::Name => SortColumn::Name,
        FieldItem::State => SortColumn::State,
        FieldItem::ParentPid => SortColumn::ParentId,
        FieldItem::Priority => SortColumn::Priority,
        FieldItem::Niceness => SortColumn::Niceness,
        FieldItem::UserId => SortColumn::UserId,
        FieldItem::Memory => SortColumn::Memory,
        FieldItem::CpuTime => SortColumn::CpuTime,
        FieldItem::OpenFiles => SortColumn::OpenFiles,
        FieldItem::Exit => SortColumn::CpuTime,
    }
}

/// Choosing a field in the sort bar and pressing Enter orders the table by
/// that field's column.
pub proof fn lemma_enter_sorts_by_chosen_field(s: AppView, count: usize)
    requires
        is_steering(s),
        s.options == OptionsItem::Sort,
        s.field != FieldItem::Exit,
    ensures
        column_named(normal_step(s, Event::Input(Key::Enter), count).0.sort_field) == field_column(
            s.field,
        ),
{
    reveal_strlit("pid");
    reveal_strlit("name");
    reveal_strlit("state");
    reveal_strlit("parent_id");
    reveal_strlit("parent_pid");
    reveal_strlit("priority");
    reveal_strlit("niceness");
    reveal_strlit("user_id");
    reveal_strlit("memory");
    reveal_strlit("cpu_time");
    reveal_strlit("open_files");
    let n = normal_step(s, Event::Input(Key::Enter), count).0.sort_field;
    assert(n == field_sort_name(s.field));
    assert("pid"@.len() == 3 && "name"@.len() == 4 && "state"@.len() == 5);
    assert("parent_pid"@.len() == 10 && "parent_id"@.len() == 9 && "priority"@.len() == 8);
    assert("niceness"@.len() == 8 && "user_id"@.len() == 7 && "memory"@.len() == 6);
    assert("cpu_time"@.len() == 8 && "open_files"@.len() == 10);
    assert("niceness"@[0] != "priority"@[0]);
    assert("cpu_time"@[0] != "priority"@[0] && "cpu_time"@[0] != "niceness"@[0]);
    assert("parent_pid"@[0] != "open_files"@[0]);
    assert("name"@[0] != "pid"@[0] && "state"@[0] != "pid"@[0]);
}

} // verus!
