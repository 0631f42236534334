use taskmon::process::{sort_by_cpu, ProcessInfo};

fn proc(pid: u64, name: &str, cpu_centi: u64) -> ProcessInfo {
    ProcessInfo { pid, name: name.to_string(), cpu_centi, memory_bytes: 0 }
}

#[test]
fn processes_sorted_by_cpu_descending() {
    let list = vec![proc(1, "a", 1050), proc(2, "b", 9900), proc(3, "c", 0)];
    let sorted = sort_by_cpu(&list);
    assert_eq!(sorted.len(), 3);
    assert_eq!(sorted[0].cpu_centi, 9900);
    assert_eq!(sorted[1].cpu_centi, 1050);
    assert_eq!(sorted[2].cpu_centi, 0);
    assert_eq!(sorted[0].pid, 2);
    assert_eq!(sorted[1].pid, 1);
    assert_eq!(sorted[2].pid, 3);
}

#[test]
fn sort_keeps_every_process() {
    let list = vec![proc(5, "x", 300), proc(6, "y", 300), proc(7, "z", 100)];
    let sorted = sort_by_cpu(&list);
    assert_eq!(sorted.len(), 3);
    let mut pids: Vec<u64> = sorted.iter().map(|p| p.pid).collect();
    pids.sort();
    assert_eq!(pids, vec![5, 6, 7]);
    assert!(sorted[0].cpu_centi >= sorted[1].cpu_centi);
    assert!(sorted[1].cpu_centi >= sorted[2].cpu_centi);
}

#[test]
fn sort_of_empty_list_is_empty() {
    let sorted = sort_by_cpu(&Vec::new());
    assert_eq!(sorted.len(), 0);
}

#[test]
fn sort_carries_all_fields() {
    let list = vec![ProcessInfo { pid: 42, name: "worker".to_string(), cpu_centi: 250, memory_bytes: 1048576 }];
    let sorted = sort_by_cpu(&list);
    assert_eq!(sorted[0].pid, 42);
    assert_eq!(sorted[0].name, "worker");
    assert_eq!(sorted[0].cpu_centi, 250);
    assert_eq!(sorted[0].memory_bytes, 1048576);
}
