use std::time::Duration;
use tuipmgr::procs::{duration_secs_text, proc_from_stat, proc_from_stat_now, Proc, ProcStat};
use tuipmgr::table::{
    column_from_name, proc_row, sort, table_rows, termination_targets, visible_procs, SortColumn,
};
use tuipmgr::text::{int_to_string, text_equal, text_less};

fn proc_with(pid: i32, name: &str, memory: i64, cpu: &str) -> Proc {
    Proc {
        pid,
        name: name.to_string(),
        state: 'S',
        parent_id: 1,
        priority: 20,
        niceness: 0,
        user_id: 1000,
        memory,
        cpu_time: cpu.to_string(),
        open_files: 3,
    }
}

fn pids(v: &[Proc]) -> Vec<i32> {
    v.iter().map(|p| p.pid).collect()
}

fn stat_with(pid: i32, comm: &str, rss: i64, utime: u64, stime: u64) -> ProcStat {
    ProcStat {
        pid,
        comm: comm.to_string(),
        state: 'R',
        ppid: 1,
        priority: 20,
        nice: -5,
        owner: 0,
        rss,
        utime,
        stime,
        open_fds: Some(7),
    }
}

#[test]
fn sort_by_pid_puts_largest_first() {
    let procs = vec![proc_with(3, "a", 1, "1s"), proc_with(10, "b", 1, "1s"), proc_with(7, "c", 1, "1s")];
    assert_eq!(pids(&sort("pid", procs)), vec![10, 7, 3]);
}

#[test]
fn sort_reverses_rows_with_equal_keys() {
    let procs = vec![proc_with(1, "x", 5, "1s"), proc_with(2, "x", 5, "1s"), proc_with(3, "x", 9, "1s")];
    // stable ascending by memory gives 1, 2, 3; reversed gives 3, 2, 1
    assert_eq!(pids(&sort("memory", procs)), vec![3, 2, 1]);
}

#[test]
fn sort_by_name_uses_string_order() {
    let procs = vec![proc_with(1, "bash", 0, "1s"), proc_with(2, "Xorg", 0, "1s"), proc_with(3, "zsh", 0, "1s"), proc_with(4, "ba", 0, "1s")];
    // ascending: Xorg < ba < bash < zsh
    assert_eq!(pids(&sort("name", procs)), vec![3, 1, 4, 2]);
}

#[test]
fn unknown_and_empty_fields_sort_by_cpu_time_text() {
    let procs = vec![proc_with(1, "a", 0, "9s"), proc_with(2, "b", 0, "10s"), proc_with(3, "c", 0, "0ns")];
    // texts compare as strings: "0ns" < "10s" < "9s"
    assert_eq!(pids(&sort("", procs.clone())), vec![1, 2, 3]);
    assert_eq!(pids(&sort("bogus", procs)), vec![1, 2, 3]);
}

#[test]
fn sort_bar_name_for_parent_id_orders_by_parent() {
    let mut procs = vec![proc_with(1, "a", 0, "9s"), proc_with(2, "b", 0, "10s"), proc_with(3, "c", 0, "0ns")];
    procs[0].parent_id = 5;
    procs[1].parent_id = 50;
    procs[2].parent_id = 7;
    assert_eq!(pids(&sort("parent_pid", procs.clone())), vec![2, 3, 1]);
    assert_eq!(pids(&sort("parent_id", procs)), vec![2, 3, 1]);
}

#[test]
fn sorting_twice_restores_tie_order() {
    let procs = vec![
        proc_with(1, "x", 5, "1s"),
        proc_with(2, "x", 9, "1s"),
        proc_with(3, "x", 5, "1s"),
        proc_with(4, "x", 9, "1s"),
    ];
    let once = sort("memory", procs);
    assert_eq!(pids(&once), vec![4, 2, 3, 1]);
    let twice = sort("memory", once.clone());
    assert_eq!(pids(&twice), vec![2, 4, 1, 3]);
    let keys = |v: &Vec<Proc>| v.iter().map(|p| p.memory).collect::<Vec<_>>();
    assert_eq!(keys(&twice), keys(&once));
}

#[test]
fn column_names() {
    assert_eq!(column_from_name("pid"), SortColumn::Pid);
    assert_eq!(column_from_name("parent_id"), SortColumn::ParentId);
    assert_eq!(column_from_name("open_files"), SortColumn::OpenFiles);
    assert_eq!(column_from_name("parent_pid"), SortColumn::ParentId);
    assert_eq!(column_from_name(""), SortColumn::CpuTime);
}

#[test]
fn search_keeps_exact_names_only() {
    let procs = vec![proc_with(1, "bash", 0, "1s"), proc_with(2, "bash2", 0, "1s"), proc_with(3, "bash", 0, "1s")];
    assert_eq!(pids(&visible_procs(procs.clone(), &"bash".to_string())), vec![1, 3]);
    assert_eq!(pids(&visible_procs(procs.clone(), &String::new())), vec![1, 2, 3]);
    assert_eq!(pids(&visible_procs(procs, &"sh".to_string())), Vec::<i32>::new());
}

#[test]
fn row_cells() {
    let p = Proc {
        pid: 42,
        name: "init".to_string(),
        state: 'Z',
        parent_id: -1,
        priority: -100,
        niceness: 19,
        user_id: 4294967295,
        memory: -3,
        cpu_time: "5s".to_string(),
        open_files: 12,
    };
    let row = proc_row(&p);
    assert_eq!(
        row,
        vec!["42", "init", "Z", "-1", "-100", "19", "4294967295", "-3", "5s", "12"]
    );
}

#[test]
fn table_rows_sorted_and_searched() {
    let procs = vec![proc_with(1, "a", 0, "1s"), proc_with(2, "b", 0, "1s"), proc_with(3, "a", 0, "1s")];
    let rows = table_rows("pid", procs.clone(), 0, &"a".to_string());
    assert_eq!(rows.len(), 2);
    assert_eq!(rows[0][0], "3");
    assert_eq!(rows[1][0], "1");
    let all = table_rows("pid", procs, 2, &String::new());
    assert_eq!(all.len(), 3);
    assert_eq!(all[2][1], "a");
}

#[test]
fn termination_targets_of_highlighted_row() {
    let procs = vec![proc_with(5, "a", 0, "1s"), proc_with(9, "b", 0, "1s"), proc_with(5, "c", 0, "1s")];
    // ordered by pid: 9, 5, 5
    assert_eq!(termination_targets("pid", procs.clone(), 0), vec![9]);
    assert_eq!(termination_targets("pid", procs, 1), vec![5, 5]);
}

#[test]
fn duration_text_matches_std_debug() {
    for secs in [0u64, 1, 9, 10, 59, 60, 3600, 123456789, u64::MAX] {
        assert_eq!(duration_secs_text(secs), format!("{:?}", Duration::from_secs(secs)));
    }
}

#[test]
fn integers_render_as_to_string() {
    for n in [0i128, 7, -7, 10, 100, -100, i64::MIN as i128, i64::MAX as i128, i128::MIN, i128::MAX] {
        assert_eq!(int_to_string(n), n.to_string());
    }
}

#[test]
fn text_order_matches_str_order() {
    let words = ["", "a", "b", "ab", "abc", "B", "é", "z", "zz", "10s", "9s"];
    for x in words {
        for y in words {
            assert_eq!(text_less(x, y), x < y, "{} {}", x, y);
            assert_eq!(text_equal(x, y), x == y);
        }
    }
}

#[test]
fn record_from_stat() {
    let s = stat_with(12, "sshd", 3, 5000, 3192);
    let p = proc_from_stat(&s, 4096);
    assert_eq!(p.pid, 12);
    assert_eq!(p.name, "sshd");
    assert_eq!(p.state, 'R');
    assert_eq!(p.parent_id, 1);
    assert_eq!(p.priority, 20);
    assert_eq!(p.niceness, -5);
    assert_eq!(p.user_id, 0);
    assert_eq!(p.memory, 12);
    assert_eq!(p.cpu_time, "2s");
    assert_eq!(p.open_files, 7);
}

#[test]
fn record_small_cpu_and_negative_memory() {
    let mut s = stat_with(1, "x", -1, 10, 20);
    s.open_fds = None;
    let p = proc_from_stat(&s, 4096);
    assert_eq!(p.cpu_time, "0ns");
    // -4096 / 1024 rounds toward zero
    assert_eq!(p.memory, -4);
    assert_eq!(p.open_files, 0);
    let q = proc_from_stat(&stat_with(1, "x", -1, 0, 0), 1000);
    assert_eq!(q.memory, 0);
}

#[test]
fn record_with_system_page_size() {
    let s = stat_with(3, "kthreadd", 100, 100000, 0);
    let p = proc_from_stat_now(&s).expect("fits");
    assert!(p.memory > 0);
    assert_eq!(p.name, "kthreadd");
    let overflow = stat_with(3, "k", i64::MAX, 0, 0);
    assert!(proc_from_stat_now(&overflow).is_none());
    let ticks = stat_with(3, "k", 1, u64::MAX, 1);
    assert!(proc_from_stat_now(&ticks).is_none());
}
