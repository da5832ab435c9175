//! Process records: the raw values the kernel reports for a process, and
//! the record the process table shows, computed from them.

use vstd::prelude::*;
use crate::text::{decimal, push_char, write_decimal};

verus! {

/// The values reported for one process by `/proc/<pid>/stat`, the owner of
/// `/proc/<pid>` and the listing of `/proc/<pid>/fd`.
pub struct ProcStat {
    pub pid: i32,
    pub comm: String,
    pub state: char,
    pub ppid: i32,
    pub priority: i64,
    pub nice: i64,
    pub owner: u32,
    /// Resident set size, in pages.
    pub rss: i64,
    /// Time scheduled in user mode, in clock ticks.
    pub utime: u64,
    /// Time scheduled in kernel mode, in clock ticks.
    pub stime: u64,
    /// The number of open file descriptors, or `None` where they could not
    /// be listed.
    pub open_fds: Option<usize>,
}

/// A `ProcStat` with its texts as character sequences.
pub struct ProcStatView {
    pub pid: i32,
    pub comm: Seq<char>,
    pub state: char,
    pub ppid: i32,
    pub priority: i64,
    pub nice: i64,
    pub owner: u32,
    pub rss: i64,
    pub utime: u64,
    pub stime: u64,
    pub open_fds: Option<usize>,
}

impl View for ProcStat {
    type V = ProcStatView;

    open spec fn view(&self) -> ProcStatView {
        ProcStatView {
            pid: self.pid,
            comm: self.comm@,
            state: self.state,
            ppid: self.ppid,
            priority: self.priority,
            nice: self.nice,
            owner: self.owner,
            rss: self.rss,
            utime: self.utime,
            stime: self.stime,
            open_fds: self.open_fds,
        }
    }
}

impl Clone for ProcStat {
    fn clone(&self) -> (r: Self)
        ensures
            r == *self,
    {
        ProcStat {
            pid: self.pid,
            comm: self.comm.clone(),
            state: self.state,
            ppid: self.ppid,
            priority: self.priority,
            nice: self.nice,
            owner: self.owner,
            rss: self.rss,
            utime: self.utime,
            stime: self.stime,
            open_fds: self.open_fds,
        }
    }
}

/// One row of the process table.
pub struct Proc {
    pub pid: i32,
    pub name: String,
    pub state: char,
    pub parent_id: i32,
    pub priority: i64,
    pub niceness: i64,
    pub user_id: u32,
    /// Resident memory in KiB.
    pub memory: i64,
    /// CPU time as text.
    pub cpu_time: String,
    pub open_files: usize,
}

/// A `Proc` with its texts as character sequences.
pub struct ProcView {
    pub pid: i32,
    pub name: Seq<char>,
    pub state: char,
    pub parent_id: i32,
    pub priority: i64,
    pub niceness: i64,
    pub user_id: u32,
    pub memory: i64,
    pub cpu_time: Seq<char>,
    pub open_files: usize,
}

impl View for Proc {
    type V = ProcView;

    open spec fn view(&self) -> ProcView {
        ProcView {
            pid: self.pid,
            name: self.name@,
            state: self.state,
            parent_id: self.parent_id,
            priority: self.priority,
            niceness: self.niceness,
            user_id: self.user_id,
            memory: self.memory,
            cpu_time: self.cpu_time@,
            open_files: self.open_files,
        }
    }
}

impl Clone for Proc {
    fn clone(&self) -> (r: Self)
        ensures
            r == *self,
    {
        Proc {
            pid: self.pid,
            name: self.name.clone(),
            state: self.state,
            parent_id: self.parent_id,
            priority: self.priority,
            niceness: self.niceness,
            user_id: self.user_id,
            memory: self.memory,
            cpu_time: self.cpu_time.clone(),
            open_files: self.open_files,
        }
    }
}

/// Open files: the number of descriptors, or 0 where they could not be
/// listed.
pub open spec fn open_files_of(s: ProcStatView) -> usize {
    match s.open_fds {
        Some(n) => n,
        None => 0,
    }
}

/// Total CPU time in clock ticks (user plus kernel).
pub open spec fn cpu_ticks(s: ProcStatView) -> int {
    s.utime + s.stime
}

/// Resident memory in bytes, as the product of pages and page size.
pub open spec fn memory_bytes(s: ProcStatView, page_size: usize) -> int {
    s.rss * (page_size as i64)
}

/// Integer division rounding toward zero, as Rust's `/` on signed integers.
pub open spec fn div_toward_zero(a: int, d: int) -> int {
    if a >= 0 {
        a / d
    } else {
        -((-a) / d)
    }
}

/// The seconds shown for a process: its clock ticks divided by the page
/// size (the table divides by the page size, not by the clock rate).
pub open spec fn cpu_seconds(s: ProcStatView, page_size: usize) -> nat {
    (cpu_ticks(s) / (page_size as int)) as nat
}

/// The text of a whole number of seconds as Rust's `Debug` of a
/// `Duration` prints it: "12s", and "0ns" for zero.
pub open spec fn duration_text(secs: nat) -> Seq<char> {
    if secs == 0 {
        seq!['0', 'n', 's']
    } else {
        decimal(secs) + seq!['s']
    }
}

/// The values a row is computed from are in range: a nonzero page size,
/// and a tick total and a memory product that fit their integer types.
pub open spec fn stat_fits(s: ProcStatView, page_size: usize) -> bool {
    &&& page_size > 0
    &&& cpu_ticks(s) <= u64::MAX
    &&& i64::MIN <= memory_bytes(s, page_size) <= i64::MAX
}

/// The row shown for a process, given the system's page size.
pub open spec fn proc_view_of(s: ProcStatView, page_size: usize) -> ProcView {
    ProcView {
        pid: s.pid,
        name: s.comm,
        state: s.state,
        parent_id: s.ppid,
        priority: s.priority,
        niceness: s.nice,
        user_id: s.owner,
        memory: div_toward_zero(memory_bytes(s, page_size), 1024) as i64,
        cpu_time: duration_text(cpu_seconds(s, page_size)),
        open_files: open_files_of(s),
    }
}

/// The text of a whole number of seconds, as `Debug` of a `Duration`.
pub fn duration_secs_text(secs: u64) -> (t: String)
    ensures
        t@ == duration_text(secs as nat),
{
    let mut t = String::new();
    if secs == 0 {
        push_char(&mut t, '0');
        push_char(&mut t, 'n');
        push_char(&mut t, 's');
        assert(t@ =~= seq!['0', 'n', 's']);
    } else {
        write_decimal(&mut t, secs as u128);
        push_char(&mut t, 's');
        assert(t@ =~= decimal(secs as nat) + seq!['s']);
    }
    t
}

/// The number of open files: the count of descriptors, or 0.
pub fn open_files_count(open_fds: Option<usize>) -> (n: usize)
    ensures
        n == match open_fds {
            Some(k) => k,
            None => 0,
        },
{
    match open_fds {
        Some(k) => k,
        None => 0,
    }
}

/// The row shown for a process, from its reported values and the page size.
pub fn proc_from_stat(stat: &ProcStat, page_size: usize) -> (p: Proc)
    requires
        stat_fits(stat@, page_size),
    ensures
        p@ == proc_view_of(stat@, page_size),
{
    let ticks: u64 = stat.utime + stat.stime;
    let secs: u64 = ticks / (page_size as u64);
    let bytes: i64 = stat.rss * #[verifier::truncate] (page_size as i64);
    Proc {
        pid: stat.pid,
        name: stat.comm.clone(),
        state: stat.state,
        parent_id: stat.ppid,
        priority: stat.priority,
        niceness: stat.nice,
        user_id: stat.owner,
        memory: bytes / 1024,
        cpu_time: duration_secs_text(secs),
        open_files: open_files_count(stat.open_fds),
    }
}

/// The system's page size: the `pagesize` function of the `sysconf` crate.
/// It queries the running system (POSIX `sysconf(_SC_PAGESIZE)`), so
/// nothing is stated of its result; it panics where the system does not
/// support the query, which POSIX requires it to.
#[verifier::external_body]
pub(crate) fn system_page_size() -> usize {
    sysconf::page::pagesize()
}

/// Whether `rss` pages of `page_size` bytes, multiplied as `i64` values,
/// stay in the range of an `i64`.
pub fn memory_bytes_in_range(rss: i64, page_size: usize) -> (r: bool)
    ensures
        r == (i64::MIN <= rss * (page_size as i64) <= i64::MAX),
{
    let ps: i64 = #[verifier::truncate] (page_size as i64);
    let a: i128 = rss as i128;
    let b: i128 = ps as i128;
    assert(-0x4000_0000_0000_0000_0000_0000_0000_0000 <= a * b <= 0x4000_0000_0000_0000_0000_0000_0000_0000) by (nonlinear_arith)
        requires
            -0x8000_0000_0000_0000 <= a <= 0x7fff_ffff_ffff_ffff,
            -0x8000_0000_0000_0000 <= b <= 0x7fff_ffff_ffff_ffff,
    ;
    let wide: i128 = a * b;
    wide >= i64::MIN as i128 && wide <= i64::MAX as i128
}

/// Checks that the values of a row are in range for a page size.
pub fn stat_fits_exec(stat: &ProcStat, page_size: usize) -> (r: bool)
    ensures
        r == stat_fits(stat@, page_size),
{
    if page_size == 0 {
        return false;
    }
    if stat.utime > u64::MAX - stat.stime {
        return false;
    }
    memory_bytes_in_range(stat.rss, page_size)
}

/// The row shown for a process, with the page size read from the system.
/// `None` where the values do not fit for that page size (the arithmetic
/// of the row would overflow, or the page size is zero).
pub fn proc_from_stat_now(stat: &ProcStat) -> (p: Option<Proc>)
    ensures
        exists|page_size: usize|
            match p {
                Some(row) => stat_fits(stat@, page_size) && row@ == proc_view_of(stat@, page_size),
                None => !stat_fits(stat@, page_size),
            },
{
    let page_size = system_page_size();
    if stat_fits_exec(stat, page_size) {
        Some(proc_from_stat(stat, page_size))
    } else {
        None
    }
}

} // verus!
