use tuipmgr::listing::{
    csv_line, listing_field_from_name, listing_row, listing_rows, listing_sort,
    listing_sort_with_page_size, ListingField, ListingSortError,
};
use tuipmgr::procs::ProcStat;

fn stat(pid: i32, comm: &str, rss: i64, utime: u64, stime: u64, fds: Option<usize>) -> ProcStat {
    ProcStat {
        pid,
        comm: comm.to_string(),
        state: 'S',
        ppid: 1,
        priority: 20,
        nice: 0,
        owner: 1000,
        rss,
        utime,
        stime,
        open_fds: fds,
    }
}

fn pids(v: &[ProcStat]) -> Vec<i32> {
    v.iter().map(|p| p.pid).collect()
}

#[test]
fn listing_field_names() {
    assert_eq!(listing_field_from_name("name"), Some(ListingField::Name));
    assert_eq!(listing_field_from_name("cpu_time"), Some(ListingField::CpuTime));
    assert_eq!(listing_field_from_name("niceness"), None);
    assert_eq!(listing_field_from_name(""), None);
}

#[test]
fn listing_sorts_ascending() {
    let v = vec![stat(3, "c", 1, 0, 0, None), stat(1, "a", 1, 0, 0, None), stat(2, "b", 1, 0, 0, None)];
    assert_eq!(pids(&listing_sort_with_page_size("pid", v.clone(), 4096).unwrap()), vec![1, 2, 3]);
    assert_eq!(pids(&listing_sort_with_page_size("name", v, 4096).unwrap()), vec![1, 2, 3]);
}

#[test]
fn listing_cpu_time_descending_and_stable() {
    let v = vec![stat(1, "a", 0, 5, 5, None), stat(2, "b", 0, 20, 0, None), stat(3, "c", 0, 1, 9, None)];
    assert_eq!(pids(&listing_sort_with_page_size("cpu_time", v, 4096).unwrap()), vec![2, 1, 3]);
}

#[test]
fn listing_open_files_and_memory() {
    let v = vec![stat(1, "a", 30, 0, 0, Some(4)), stat(2, "b", 10, 0, 0, None), stat(3, "c", 20, 0, 0, Some(1))];
    assert_eq!(pids(&listing_sort_with_page_size("open_files", v.clone(), 4096).unwrap()), vec![2, 3, 1]);
    assert_eq!(pids(&listing_sort_with_page_size("memory", v, 4096).unwrap()), vec![2, 3, 1]);
}

#[test]
fn listing_unknown_field() {
    let v = vec![stat(1, "a", 0, 0, 0, None)];
    assert!(listing_sort_with_page_size("niceness", v.clone(), 4096).is_none());
    assert!(matches!(listing_sort("niceness", v), Err(ListingSortError::UnknownField)));
}

#[test]
fn listing_sort_reads_page_size() {
    let v = vec![stat(2, "b", 10, 0, 0, None), stat(1, "a", 5, 0, 0, None)];
    let sorted = listing_sort("memory", v).unwrap();
    assert_eq!(pids(&sorted), vec![1, 2]);
    let big = vec![stat(1, "a", i64::MAX, 0, 0, None)];
    assert!(matches!(listing_sort("memory", big), Err(ListingSortError::Overflow)));
    let ticks = vec![stat(1, "a", 0, u64::MAX, 1, None)];
    assert!(matches!(listing_sort("cpu_time", ticks.clone()), Err(ListingSortError::Overflow)));
    assert!(listing_sort("pid", ticks).is_ok());
}

#[test]
fn listing_row_cells() {
    let s = stat(7, "cron", 8, 8192, 0, Some(5));
    assert_eq!(
        listing_row(&s, 1234, 4096),
        vec!["cron", "7", "S", "1", "20", "0", "1000", "32", "2s", "1234", "5"]
    );
}

#[test]
fn listing_rows_one_per_interface() {
    let v = vec![stat(1, "a", 0, 0, 0, None), stat(2, "b", 0, 0, 0, None)];
    let rows = listing_rows(&v, &vec![10, 20, 30]).unwrap();
    assert_eq!(rows.len(), 6);
    assert_eq!(rows[0][1], "1");
    assert_eq!(rows[0][9], "10");
    assert_eq!(rows[2][9], "30");
    assert_eq!(rows[3][1], "2");
    assert_eq!(rows[5][9], "30");
    assert_eq!(listing_rows(&v, &vec![]).unwrap().len(), 0);
    assert!(listing_rows(&vec![stat(1, "a", i64::MAX, 0, 0, None)], &vec![1]).is_none());
}

#[test]
fn csv_lines() {
    let cells: Vec<String> = vec!["a".into(), "".into(), "c d".into()];
    assert_eq!(csv_line(&cells), "a,,c d");
    assert_eq!(csv_line(&vec!["x".to_string()]), "x");
    assert_eq!(csv_line(&vec![]), "");
}
