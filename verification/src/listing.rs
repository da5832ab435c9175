//! The one-shot process listing: processes ordered by a field the user
//! names, one row per process and network interface, and the lines of its
//! comma-separated dump.

use vstd::prelude::*;
use vstd::string::*;
use crate::order::{
    SortKey, Direction, stable_order, stable_sorted, arrange, is_stable_order, stable_order_spec,
    key_lt, goes_before, lemma_stable_order_exists, lemma_goes_before_order,
};
use crate::procs::{
    ProcStat, ProcStatView, proc_view_of, stat_fits, stat_fits_exec, memory_bytes, cpu_ticks,
    open_files_of, open_files_count, proc_from_stat, system_page_size, memory_bytes_in_range,
};
use crate::table::{texts, char_to_string, lemma_sort_names_distinct};
use crate::text::{signed_decimal, int_to_string, text_equal, comma_join, push_char, text_lt};

verus! {

/// The fields the listing can be ordered by.
#[derive(PartialEq, Eq, Structural, Clone, Copy, Debug)]
pub enum ListingField {
    Name,
    Pid,
    State,
    ParentId,
    Priority,
    UserId,
    Memory,
    CpuTime,
    OpenFiles,
}

/// The field a name selects: "name", "pid", "state", "parent_id",
/// "priority", "user_id", "memory", "cpu_time" or "open_files"; any other
/// name selects none.
pub open spec fn listing_field_named(s: Seq<char>) -> Option<ListingField> {
    if s == "name"@ {
        Some(ListingField::Name)
    } else if s == "pid"@ {
        Some(ListingField::Pid)
    } else if s == "state"@ {
        Some(ListingField::State)
    } else if s == "parent_id"@ {
        Some(ListingField::ParentId)
    } else if s == "priority"@ {
        Some(ListingField::Priority)
    } else if s == "user_id"@ {
        Some(ListingField::UserId)
    } else if s == "memory"@ {
        Some(ListingField::Memory)
    } else if s == "cpu_time"@ {
        Some(ListingField::CpuTime)
    } else if s == "open_files"@ {
        Some(ListingField::OpenFiles)
    } else {
        None
    }
}

/// The field a name selects (see `listing_field_named`).
pub fn listing_field_from_name(name: &str) -> (f: Option<ListingField>)
    ensures
        f == listing_field_named(name@),
{
    if text_equal(name, "name") {
        Some(ListingField::Name)
    } else if text_equal(name, "pid") {
        Some(ListingField::Pid)
    } else if text_equal(name, "state") {
        Some(ListingField::State)
    } else if text_equal(name, "parent_id") {
        Some(ListingField::ParentId)
    } else if text_equal(name, "priority") {
        Some(ListingField::Priority)
    } else if text_equal(name, "user_id") {
        Some(ListingField::UserId)
    } else if text_equal(name, "memory") {
        Some(ListingField::Memory)
    } else if text_equal(name, "cpu_time") {
        Some(ListingField::CpuTime)
    } else if text_equal(name, "open_files") {
        Some(ListingField::OpenFiles)
    } else {
        None
    }
}

/// The key of a process for a field: memory in bytes, CPU time in clock
/// ticks, the name as text.
pub open spec fn listing_key(f: ListingField, s: ProcStat, page_size: usize) -> SortKey {
    match f {
        ListingField::Name => SortKey::Text(s.comm),
        ListingField::Pid => SortKey::Number(s.pid as i128),
        ListingField::State => SortKey::Number((s.state as u32) as i128),
        ListingField::ParentId => SortKey::Number(s.ppid as i128),
        ListingField::Priority => SortKey::Number(s.priority as i128),
        ListingField::UserId => SortKey::Number(s.owner as i128),
        ListingField::Memory => SortKey::Number(memory_bytes(s@, page_size) as i128),
        ListingField::CpuTime => SortKey::Number(cpu_ticks(s@) as i128),
        ListingField::OpenFiles => SortKey::Number(open_files_of(s@) as i128),
    }
}

pub open spec fn listing_keys(f: ListingField, stats: Seq<ProcStat>, page_size: usize) -> Seq<SortKey> {
    stats.map_values(|s: ProcStat| listing_key(f, s, page_size))
}

/// CPU time is listed largest first; every other field smallest first.
pub open spec fn listing_direction(f: ListingField) -> Direction {
    if f == ListingField::CpuTime {
        Direction::Descending
    } else {
        Direction::Ascending
    }
}

/// The key of every process is in range: memory in bytes fits an `i64`
/// when ordering by memory, and ticks fit a `u64` when ordering by CPU
/// time.
pub open spec fn listing_fits(f: ListingField, stats: Seq<ProcStat>, page_size: usize) -> bool {
    forall|k: int| 0 <= k < stats.len() ==> #[trigger] key_fits(f, stats[k], page_size)
}

/// The key of one process is in range (see `listing_fits`).
pub open spec fn key_fits(f: ListingField, s: ProcStat, page_size: usize) -> bool {
    &&& (f == ListingField::Memory ==> i64::MIN <= memory_bytes(s@, page_size) <= i64::MAX)
    &&& (f == ListingField::CpuTime ==> cpu_ticks(s@) <= u64::MAX)
}

/// The listing's order: a stable sort by the field's key, in its direction.
pub open spec fn listing_order(f: ListingField, stats: Seq<ProcStat>, page_size: usize) -> Seq<ProcStat> {
    stable_sorted(stats, listing_keys(f, stats, page_size), listing_direction(f))
}

fn listing_key_exec(f: ListingField, s: &ProcStat, page_size: usize) -> (k: SortKey)
    requires
        f == ListingField::Memory ==> i64::MIN <= memory_bytes(s@, page_size) <= i64::MAX,
        f == ListingField::CpuTime ==> cpu_ticks(s@) <= u64::MAX,
    ensures
        k == listing_key(f, *s, page_size),
{
    match f {
        ListingField::Name => SortKey::Text(s.comm.clone()),
        ListingField::Pid => SortKey::Number(s.pid as i128),
        ListingField::State => SortKey::Number((s.state as u32) as i128),
        ListingField::ParentId => SortKey::Number(s.ppid as i128),
        ListingField::Priority => SortKey::Number(s.priority as i128),
        ListingField::UserId => SortKey::Number(s.owner as i128),
        ListingField::Memory => {
            let bytes: i64 = s.rss * #[verifier::truncate] (page_size as i64);
            SortKey::Number(bytes as i128)
        },
        ListingField::CpuTime => SortKey::Number((s.utime + s.stime) as i128),
        ListingField::OpenFiles => SortKey::Number(open_files_count(s.open_fds) as i128),
    }
}

/// Orders the processes by the field `field` names, for a page size.
/// `None` where the name selects no field (the processes are then listed
/// as they came).
pub fn listing_sort_with_page_size(field: &str, stats: Vec<ProcStat>, page_size: usize) -> (r: Option<
    Vec<ProcStat>,
>)
    requires
        listing_field_named(field@) matches Some(f) ==> listing_fits(f, stats@, page_size),
    ensures
        match listing_field_named(field@) {
            None => r is None,
            Some(f) => r matches Some(v) && v@ == listing_order(f, stats@, page_size),
        },
{
    let f = match listing_field_from_name(field) {
        Some(f) => f,
        None => return None,
    };
    let dir = if f == ListingField::CpuTime {
        Direction::Descending
    } else {
        Direction::Ascending
    };
    let n = stats.len();
    let mut keys: Vec<SortKey> = Vec::new();
    let mut i: usize = 0;
    while i < n
        invariant
            n == stats.len(),
            i <= n,
            listing_fits(f, stats@, page_size),
            keys.len() == i,
            forall|k: int| 0 <= k < i ==> keys@[k] == listing_key(f, #[trigger] stats@[k], page_size),
        decreases n - i,
    {
        proof {
            assert(key_fits(f, stats@[i as int], page_size));
        }
        keys.push(listing_key_exec(f, &stats[i], page_size));
        i = i + 1;
    }
    assert(keys@ =~= listing_keys(f, stats@, page_size));
    let order = stable_order(&keys, dir);
    let mut out: Vec<ProcStat> = Vec::new();
    let mut k: usize = 0;
    while k < n
        invariant
            n == stats.len(),
            is_stable_order(keys@, dir, order@),
            keys.len() == n,
            k <= n,
            out.len() == k,
            forall|j: int| 0 <= j < k ==> out@[j] == stats@[order@[j] as int],
        decreases n - k,
    {
        out.push(stats[order[k]].clone());
        k = k + 1;
    }
    assert(out@ =~= arrange(stats@, order@));
    Some(out)
}

/// The listing is ordered by its field: ascending, except CPU time, which
/// comes largest first.
pub proof fn lemma_listing_order_sorted(f: ListingField, stats: Seq<ProcStat>, page_size: usize, i: int, j: int)
    requires
        stats.len() <= usize::MAX,
        0 <= i < j < stats.len(),
    ensures
        ({
            let r = listing_order(f, stats, page_size);
            let ki = listing_key(f, r[i], page_size);
            let kj = listing_key(f, r[j], page_size);
            if f == ListingField::CpuTime {
                !key_lt(ki, kj)
            } else {
                !key_lt(kj, ki)
            }
        }),
{
    let keys = listing_keys(f, stats, page_size);
    let dir = listing_direction(f);
    lemma_stable_order_exists(keys, dir);
    let p = stable_order_spec(keys, dir);
    let a = p[i] as int;
    let b = p[j] as int;
    assert(goes_before(keys, dir, a, b));
    assert(keys[a] == listing_key(f, stats[a], page_size));
    assert(keys[b] == listing_key(f, stats[b], page_size));
    lemma_goes_before_order(keys, dir, a, b, a);
}

/// The listing ordered by a field lists the values of that field from
/// smallest to largest (names as Rust orders strings), except CPU time
/// (user plus kernel ticks), which is listed largest first; memory is
/// compared as pages times the page size.
pub proof fn lemma_listing_order_by_field(
    f: ListingField,
    stats: Seq<ProcStat>,
    page_size: usize,
    i: int,
    j: int,
)
    requires
        stats.len() <= usize::MAX,
        listing_fits(f, stats, page_size),
        0 <= i < j < stats.len(),
    ensures
        ({
            let a = listing_order(f, stats, page_size)[i];
            let b = listing_order(f, stats, page_size)[j];
            match f {
                ListingField::Name => !text_lt(b.comm@, a.comm@),
                ListingField::Pid => a.pid <= b.pid,
                ListingField::State => (a.state as u32) <= (b.state as u32),
                ListingField::ParentId => a.ppid <= b.ppid,
                ListingField::Priority => a.priority <= b.priority,
                ListingField::UserId => a.owner <= b.owner,
                ListingField::Memory => a.rss * (page_size as i64) <= b.rss * (page_size as i64),
                ListingField::CpuTime => a.utime + a.stime >= b.utime + b.stime,
                ListingField::OpenFiles => (match a.open_fds {
                    Some(n) => n,
                    None => 0,
                }) <= (match b.open_fds {
                    Some(n) => n,
                    None => 0,
                }),
            }
        }),
{
    let keys = listing_keys(f, stats, page_size);
    let dir = listing_direction(f);
    lemma_stable_order_exists(keys, dir);
    let p = stable_order_spec(keys, dir);
    let x = p[i] as int;
    let y = p[j] as int;
    assert(key_fits(f, stats[x], page_size));
    assert(key_fits(f, stats[y], page_size));
    lemma_listing_order_sorted(f, stats, page_size, i, j);
}

/// Ordering the listing by a name orders it by the field the name names:
/// "name", "pid", "state", "parent_id", "priority", "user_id", "memory",
/// "open_files" ascending, "cpu_time" descending; any other name is
/// refused.
pub proof fn lemma_listing_by_named_field(
    name: Seq<char>,
    stats: Seq<ProcStat>,
    page_size: usize,
    i: int,
    j: int,
)
    requires
        stats.len() <= usize::MAX,
        listing_field_named(name) matches Some(f) ==> listing_fits(f, stats, page_size),
        0 <= i < j < stats.len(),
    ensures
        ({
            let known = name == "name"@ || name == "pid"@ || name == "state"@ || name
                == "parent_id"@ || name == "priority"@ || name == "user_id"@ || name == "memory"@
                || name == "cpu_time"@ || name == "open_files"@;
            &&& !known ==> listing_field_named(name) is None
            &&& known ==> listing_field_named(name) is Some
            &&& listing_field_named(name) matches Some(f) ==> {
                let a = listing_order(f, stats, page_size)[i];
                let b = listing_order(f, stats, page_size)[j];
                &&& name == "name"@ ==> !text_lt(b.comm@, a.comm@)
                &&& name == "pid"@ ==> a.pid <= b.pid
                &&& name == "state"@ ==> (a.state as u32) <= (b.state as u32)
                &&& name == "parent_id"@ ==> a.ppid <= b.ppid
                &&& name == "priority"@ ==> a.priority <= b.priority
                &&& name == "user_id"@ ==> a.owner <= b.owner
                &&& name == "memory"@ ==> a.rss * (page_size as i64) <= b.rss * (page_size as i64)
                &&& name == "cpu_time"@ ==> a.utime + a.stime >= b.utime + b.stime
                &&& name == "open_files"@ ==> (match a.open_fds {
                    Some(n) => n,
                    None => 0,
                }) <= (match b.open_fds {
                    Some(n) => n,
                    None => 0,
                })
            }
        }),
{
    lemma_sort_names_distinct();
    if let Some(f) = listing_field_named(name) {
        lemma_listing_order_by_field(f, stats, page_size, i, j);
    }
}

/// Why the listing could not be ordered.
#[derive(PartialEq, Eq, Structural, Clone, Copy, Debug)]
pub enum ListingSortError {
    /// The name selects no field.
    UnknownField,
    /// A process's memory in bytes, or its tick total, overflows.
    Overflow,
}

/// Checks that every process's key is in range for a page size (see
/// `listing_fits`).
pub fn listing_fits_exec(f: ListingField, stats: &Vec<ProcStat>, page_size: usize) -> (r: bool)
    ensures
        r == listing_fits(f, stats@, page_size),
{
    let n = stats.len();
    let mut i: usize = 0;
    while i < n
        invariant
            n == stats.len(),
            i <= n,
            listing_fits(f, stats@.take(i as int), page_size),
        decreases n - i,
    {
        let s = &stats[i];
        if f == ListingField::Memory && !memory_bytes_in_range(s.rss, page_size) {
            assert(!key_fits(f, stats@[i as int], page_size));
            return false;
        }
        if f == ListingField::CpuTime && s.utime > u64::MAX - s.stime {
            assert(!key_fits(f, stats@[i as int], page_size));
            return false;
        }
        assert(key_fits(f, stats@[i as int], page_size));
        assert(stats@.take(i as int).push(stats@[i as int]) =~= stats@.take(i + 1));
        i = i + 1;
    }
    assert(stats@.take(n as int) =~= stats@);
    true
}

/// What ordering the listing gives for a page size: an unknown field name
/// is refused, keys out of range are refused, else the listing's order.
pub open spec fn listing_sort_outcome(
    field: Seq<char>,
    stats: Seq<ProcStat>,
    page_size: usize,
    r: Result<Vec<ProcStat>, ListingSortError>,
) -> bool {
    match listing_field_named(field) {
        None => r == Err::<Vec<ProcStat>, ListingSortError>(ListingSortError::UnknownField),
        Some(f) => if listing_fits(f, stats, page_size) {
            r matches Ok(v) && v@ == listing_order(f, stats, page_size)
        } else {
            r == Err::<Vec<ProcStat>, ListingSortError>(ListingSortError::Overflow)
        },
    }
}

/// Orders the processes by the field `field` names, with the page size
/// read from the system.
pub fn listing_sort(field: &str, stats: Vec<ProcStat>) -> (r: Result<Vec<ProcStat>, ListingSortError>)
    ensures
        exists|page_size: usize| #[trigger] listing_sort_outcome(field@, stats@, page_size, r),
{
    let page_size = system_page_size();
    let ghost orig = stats@;
    let r = match listing_field_from_name(field) {
        None => Err(ListingSortError::UnknownField),
        Some(f) => {
            if listing_fits_exec(f, &stats, page_size) {
                match listing_sort_with_page_size(field, stats, page_size) {
                    Some(v) => Ok(v),
                    None => Err(ListingSortError::UnknownField),
                }
            } else {
                Err(ListingSortError::Overflow)
            }
        },
    };
    assert(listing_sort_outcome(field@, orig, page_size, r));
    r
}


/// The cells of a listing row: name, process ID, state, parent process ID,
/// priority, nice value, user ID, memory (KiB), CPU time, the bytes an
/// interface transmitted, open files.
pub open spec fn listing_cells(s: ProcStatView, transmitted: u64, page_size: usize) -> Seq<Seq<char>> {
    let p = proc_view_of(s, page_size);
    seq![
        s.comm,
        signed_decimal(s.pid as int),
        seq![s.state],
        signed_decimal(s.ppid as int),
        signed_decimal(s.priority as int),
        signed_decimal(s.nice as int),
        signed_decimal(s.owner as int),
        signed_decimal(p.memory as int),
        p.cpu_time,
        signed_decimal(transmitted as int),
        signed_decimal(open_files_of(s) as int),
    ]
}

/// The cells of a listing row (see `listing_cells`).
pub fn listing_row(stat: &ProcStat, transmitted: u64, page_size: usize) -> (row: Vec<String>)
    requires
        stat_fits(stat@, page_size),
    ensures
        texts(row@) == listing_cells(stat@, transmitted, page_size),
{
    let p = proc_from_stat(stat, page_size);
    let mut row: Vec<String> = Vec::new();
    row.push(stat.comm.clone());
    row.push(int_to_string(stat.pid as i128));
    row.push(char_to_string(stat.state));
    row.push(int_to_string(stat.ppid as i128));
    row.push(int_to_string(stat.priority as i128));
    row.push(int_to_string(stat.nice as i128));
    row.push(int_to_string(stat.owner as i128));
    row.push(int_to_string(p.memory as i128));
    row.push(p.cpu_time);
    row.push(int_to_string(transmitted as i128));
    row.push(int_to_string(p.open_files as i128));
    assert(texts(row@) =~= listing_cells(stat@, transmitted, page_size));
    row
}

/// The rows of the listing: for each process in turn, one row for each
/// network interface, with the bytes that interface transmitted.
pub open spec fn listing_table(stats: Seq<ProcStat>, transmitted: Seq<u64>, page_size: usize) -> Seq<
    Seq<Seq<char>>,
>
    decreases stats.len(),
{
    if stats.len() == 0 {
        seq![]
    } else {
        listing_table(stats.drop_last(), transmitted, page_size) + Seq::new(
            transmitted.len(),
            |j: int| listing_cells(stats.last()@, transmitted[j], page_size),
        )
    }
}

/// The texts of rows of strings.
pub open spec fn row_texts(rows: Seq<Vec<String>>) -> Seq<Seq<Seq<char>>> {
    rows.map_values(|r: Vec<String>| texts(r@))
}

/// Every process's row values are in range for the page size.
pub open spec fn all_fit(stats: Seq<ProcStat>, page_size: usize) -> bool {
    forall|k: int| 0 <= k < stats.len() ==> #[trigger] stat_fits(stats[k]@, page_size)
}

/// The rows of the listing (see `listing_table`) for a page size.
pub fn listing_rows_with_page_size(
    stats: &Vec<ProcStat>,
    transmitted: &Vec<u64>,
    page_size: usize,
) -> (rows: Vec<Vec<String>>)
    requires
        all_fit(stats@, page_size),
    ensures
        row_texts(rows@) == listing_table(stats@, transmitted@, page_size),
{
    let n = stats.len();
    let m = transmitted.len();
    let mut rows: Vec<Vec<String>> = Vec::new();
    let mut i: usize = 0;
    while i < n
        invariant
            n == stats.len(),
            m == transmitted.len(),
            i <= n,
            all_fit(stats@, page_size),
            row_texts(rows@) == listing_table(stats@.take(i as int), transmitted@, page_size),
        decreases n - i,
    {
        let ghost before = row_texts(rows@);
        let ghost block = Seq::new(
            m as nat,
            |j: int| listing_cells(stats@[i as int]@, transmitted@[j], page_size),
        );
        assert(stat_fits(stats@[i as int]@, page_size));
        let mut j: usize = 0;
        while j < m
            invariant
                n == stats.len(),
                m == transmitted.len(),
                i < n,
                j <= m,
                stat_fits(stats@[i as int]@, page_size),
                block == Seq::new(
                    m as nat,
                    |j: int| listing_cells(stats@[i as int]@, transmitted@[j], page_size),
                ),
                row_texts(rows@) == before + block.take(j as int),
            decreases m - j,
        {
            let row = listing_row(&stats[i], transmitted[j], page_size);
            let ghost prev = rows@;
            rows.push(row);
            assert(row_texts(rows@) =~= row_texts(prev).push(texts(row@)));
            assert(block.take(j + 1) =~= block.take(j as int).push(block[j as int]));
            assert(before + block.take(j + 1) =~= (before + block.take(j as int)).push(block[j as int]));
            j = j + 1;
        }
        assert(block.take(m as int) =~= block);
        assert(stats@.take(i + 1).drop_last() =~= stats@.take(i as int));
        assert(stats@.take(i + 1).last() == stats@[i as int]);
        i = i + 1;
    }
    assert(stats@.take(n as int) =~= stats@);
    rows
}

fn all_fit_exec(stats: &Vec<ProcStat>, page_size: usize) -> (r: bool)
    ensures
        r == all_fit(stats@, page_size),
{
    let n = stats.len();
    let mut i: usize = 0;
    while i < n
        invariant
            n == stats.len(),
            i <= n,
            forall|k: int| 0 <= k < i ==> #[trigger] stat_fits(stats@[k]@, page_size),
        decreases n - i,
    {
        if !stat_fits_exec(&stats[i], page_size) {
            return false;
        }
        i = i + 1;
    }
    true
}

/// The rows of the listing, with the page size read from the system;
/// `None` where some process's values do not fit for that page size.
pub fn listing_rows(stats: &Vec<ProcStat>, transmitted: &Vec<u64>) -> (rows: Option<Vec<Vec<String>>>)
    ensures
        exists|page_size: usize| #[trigger] listing_rows_outcome(stats@, transmitted@, page_size, rows),
{
    let page_size = system_page_size();
    let rows = if all_fit_exec(stats, page_size) {
        Some(listing_rows_with_page_size(stats, transmitted, page_size))
    } else {
        None
    };
    assert(listing_rows_outcome(stats@, transmitted@, page_size, rows));
    rows
}

/// What the listing's rows are for a page size.
pub open spec fn listing_rows_outcome(
    stats: Seq<ProcStat>,
    transmitted: Seq<u64>,
    page_size: usize,
    rows: Option<Vec<Vec<String>>>,
) -> bool {
    if all_fit(stats, page_size) {
        rows matches Some(v) && row_texts(v@) == listing_table(stats, transmitted, page_size)
    } else {
        rows is None
    }
}

/// One line of the comma-separated dump: the cells joined with ','.
pub fn csv_line(cells: &Vec<String>) -> (line: String)
    ensures
        line@ == comma_join(texts(cells@)),
{
    let mut line = String::new();
    let n = cells.len();
    let mut i: usize = 0;
    while i < n
        invariant
            n == cells.len(),
            i <= n,
            line@ == comma_join(texts(cells@).take(i as int)),
        decreases n - i,
    {
        let ghost t = texts(cells@);
        if i > 0 {
            push_char(&mut line, ',');
        }
        line.append(cells[i].as_str());
        proof {
            assert(t.take(i + 1).drop_last() =~= t.take(i as int));
            if i == 0 {
                assert(line@ =~= t.take(1)[0]);
            }
        }
        i = i + 1;
    }
    assert(texts(cells@).take(n as int) =~= texts(cells@));
    line
}

} // verus!
