use taskmon::aggregator::{
    DiskIoSnapshot, DiskReading, NetIoSnapshot, NetReading, Reading, SystemInfo, DEFAULT_CAPACITY,
};
use taskmon::process::ProcessInfo;
use taskmon::rate::BYTES_PER_MB;

fn empty_reading() -> Reading {
    Reading {
        cpu_centi: Vec::new(),
        mem_total: 0,
        mem_used: 0,
        swap_total: 0,
        swap_used: 0,
        disks: Vec::new(),
        nets: Vec::new(),
        processes: Vec::new(),
    }
}

fn disk(name: &str, total_bytes: u64, available_bytes: u64) -> DiskReading {
    DiskReading { name: name.to_string(), total_bytes, available_bytes }
}

fn net(name: &str, rx_total: u64, tx_total: u64) -> NetReading {
    NetReading { name: name.to_string(), rx_total, tx_total }
}

#[test]
fn memory_history_keeps_last_three_of_five() {
    let mut s = SystemInfo::new(3, 0);
    for v in 1..=5u64 {
        let mut r = empty_reading();
        r.mem_total = 8;
        r.mem_used = v;
        s.refresh(r);
    }
    assert_eq!(*s.mem_history().snapshot(), vec![3, 4, 5]);
    assert_eq!(s.mem_used(), 5);
    assert_eq!(s.mem_total(), 8);
}

#[test]
fn network_rates_baseline_then_delta() {
    let mut s = SystemInfo::new(DEFAULT_CAPACITY, 0);
    let mut r1 = empty_reading();
    r1.nets = vec![net("eth0", 1048576, 0)];
    s.refresh(r1);
    let mut r2 = empty_reading();
    r2.nets = vec![net("eth0", 2097152, 0)];
    s.refresh(r2);

    let nets = s.net_histories();
    assert_eq!(nets.len(), 1);
    assert_eq!(nets[0].iface, "eth0");
    let hist = nets[0].history.snapshot();
    assert_eq!(
        *hist,
        vec![
            NetIoSnapshot { rx_bytes: 0, tx_bytes: 0 },
            NetIoSnapshot { rx_bytes: 1048576, tx_bytes: 0 },
        ]
    );
    let rates_mb: Vec<f64> = hist.iter().map(|p| p.rx_bytes as f64 / BYTES_PER_MB as f64).collect();
    assert_eq!(rates_mb, vec![0.0, 1.0]);
    assert_eq!(nets[0].rx.previous, Some(2097152));
    assert_eq!(nets[0].tx.previous, Some(0));
}

#[test]
fn unseen_disk_creates_stream_without_disturbing_others() {
    let mut s = SystemInfo::new(4, 0);
    let mut r1 = empty_reading();
    r1.disks = vec![disk("sda", 100, 40)];
    s.refresh(r1);
    let mut r2 = empty_reading();
    r2.disks = vec![disk("sda", 100, 30), disk("sdb", 50, 50)];
    s.refresh(r2);

    let disks = s.disk_histories();
    assert_eq!(disks.len(), 2);
    assert_eq!(disks[0].disk, "sda");
    assert_eq!(
        *disks[0].history.snapshot(),
        vec![DiskIoSnapshot { used_bytes: 60 }, DiskIoSnapshot { used_bytes: 70 }]
    );
    assert_eq!(disks[1].disk, "sdb");
    assert_eq!(*disks[1].history.snapshot(), vec![DiskIoSnapshot { used_bytes: 0 }]);
}

#[test]
fn absent_stream_keeps_its_history() {
    let mut s = SystemInfo::new(4, 0);
    let mut r1 = empty_reading();
    r1.disks = vec![disk("sda", 10, 4), disk("sdb", 20, 5)];
    r1.nets = vec![net("eth0", 100, 200)];
    s.refresh(r1);
    let mut r2 = empty_reading();
    r2.disks = vec![disk("sdb", 20, 3)];
    s.refresh(r2);

    let disks = s.disk_histories();
    assert_eq!(disks.len(), 2);
    assert_eq!(*disks[0].history.snapshot(), vec![DiskIoSnapshot { used_bytes: 6 }]);
    assert_eq!(
        *disks[1].history.snapshot(),
        vec![DiskIoSnapshot { used_bytes: 15 }, DiskIoSnapshot { used_bytes: 17 }]
    );
    let nets = s.net_histories();
    assert_eq!(nets.len(), 1);
    assert_eq!(nets[0].history.snapshot().len(), 1);
    assert_eq!(nets[0].rx.previous, Some(100));
}

#[test]
fn inconsistent_disk_reading_clamps_to_zero() {
    let mut s = SystemInfo::new(4, 0);
    let mut r = empty_reading();
    r.disks = vec![disk("sda", 10, 30)];
    s.refresh(r);
    let disks = s.disk_histories();
    assert_eq!(*disks[0].history.snapshot(), vec![DiskIoSnapshot { used_bytes: 0 }]);
}

#[test]
fn cpu_histories_update_per_core() {
    let mut s = SystemInfo::new(2, 2);
    let mut r1 = empty_reading();
    r1.cpu_centi = vec![1000, 2000];
    s.refresh(r1);
    let mut r2 = empty_reading();
    r2.cpu_centi = vec![1500, 2500, 9999];
    s.refresh(r2);

    let cores = s.cpu_history();
    assert_eq!(cores.len(), 2);
    assert_eq!(*cores[0].snapshot(), vec![1000, 1500]);
    assert_eq!(*cores[1].snapshot(), vec![2000, 2500]);
}

#[test]
fn short_cpu_reading_leaves_other_cores() {
    let mut s = SystemInfo::new(4, 2);
    let mut r1 = empty_reading();
    r1.cpu_centi = vec![100];
    s.refresh(r1);
    let cores = s.cpu_history();
    assert_eq!(*cores[0].snapshot(), vec![100]);
    assert_eq!(cores[1].snapshot().len(), 0);
}

#[test]
fn cpu_usages_report_latest_sample() {
    let mut s = SystemInfo::new(4, 3);
    assert_eq!(s.cpu_usages(), vec![0, 0, 0]);
    let mut r = empty_reading();
    r.cpu_centi = vec![1234, 5678];
    s.refresh(r);
    assert_eq!(s.cpu_usages(), vec![1234, 5678, 0]);
}

#[test]
fn processes_come_back_sorted() {
    let mut s = SystemInfo::new(4, 0);
    let mut r = empty_reading();
    r.processes = vec![
        ProcessInfo { pid: 1, name: "idle".to_string(), cpu_centi: 0, memory_bytes: 10 },
        ProcessInfo { pid: 2, name: "busy".to_string(), cpu_centi: 9900, memory_bytes: 20 },
        ProcessInfo { pid: 3, name: "mild".to_string(), cpu_centi: 1050, memory_bytes: 30 },
    ];
    s.refresh(r);
    let sorted = s.processes();
    assert_eq!(sorted.len(), 3);
    assert_eq!(sorted[0].name, "busy");
    assert_eq!(sorted[1].name, "mild");
    assert_eq!(sorted[2].name, "idle");
}

#[test]
fn swap_gauges_follow_latest_reading() {
    let mut s = SystemInfo::new(4, 0);
    let mut r = empty_reading();
    r.swap_total = 1000;
    r.swap_used = 250;
    s.refresh(r);
    assert_eq!(s.swap_total(), 1000);
    assert_eq!(s.swap_used(), 250);
}

#[test]
fn fresh_aggregator_is_empty() {
    let s = SystemInfo::new(3, 2);
    assert_eq!(s.cpu_history().len(), 2);
    assert_eq!(s.cpu_history()[0].snapshot().len(), 0);
    assert_eq!(s.mem_history().snapshot().len(), 0);
    assert_eq!(s.disk_histories().len(), 0);
    assert_eq!(s.net_histories().len(), 0);
    assert_eq!(s.processes().len(), 0);
}
