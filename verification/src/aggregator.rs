//! The metrics aggregator: per-stream bounded histories, lazily created for
//! disks and network interfaces as their names are first observed.

use vstd::prelude::*;

use crate::history::{pushed, History};
use crate::process::{sort_by_cpu, sorted_by_cpu_desc, ProcessInfo};
use crate::rate::{delta_spec, CounterState};

verus! {

/// One observation of a disk: how many bytes are in use.
#[derive(Clone, Copy, PartialEq, Eq, Structural, Debug)]
pub struct DiskIoSnapshot {
    pub used_bytes: u64,
}

/// One observation of a network interface: bytes received and transmitted
/// during the refresh interval that ended with this observation.
#[derive(Clone, Copy, PartialEq, Eq, Structural, Debug)]
pub struct NetIoSnapshot {
    pub rx_bytes: u64,
    pub tx_bytes: u64,
}

/// Bounded usage history of one disk, keyed by its name.
pub struct DiskHistory {
    pub disk: String,
    pub history: History<DiskIoSnapshot>,
}

impl DiskHistory {
    pub fn new(disk: String, capacity: usize) -> (d: Self)
        ensures
            d.disk == disk,
            d.history@ == Seq::<DiskIoSnapshot>::empty(),
            d.history.cap() == capacity,
            d.history.wf(),
    {
        DiskHistory { disk, history: History::new(capacity) }
    }

    pub fn push(&mut self, snap: DiskIoSnapshot)
        requires
            old(self).history.wf(),
        ensures
            final(self).disk == old(self).disk,
            final(self).history@ == pushed(old(self).history@, old(self).history.cap(), snap),
            final(self).history.cap() == old(self).history.cap(),
            final(self).history.wf(),
    {
        self.history.push(snap);
    }
}

/// Bounded throughput history of one network interface, keyed by its name,
/// together with the last-seen cumulative counters the deltas are derived
/// from.
pub struct NetHistory {
    pub iface: String,
    pub history: History<NetIoSnapshot>,
    pub rx: CounterState,
    pub tx: CounterState,
}

impl NetHistory {
    pub fn new(iface: String, capacity: usize) -> (n: Self)
        ensures
            n.iface == iface,
            n.history@ == Seq::<NetIoSnapshot>::empty(),
            n.history.cap() == capacity,
            n.history.wf(),
            n.rx.previous == None::<u64>,
            n.tx.previous == None::<u64>,
    {
        NetHistory {
            iface,
            history: History::new(capacity),
            rx: CounterState::new(),
            tx: CounterState::new(),
        }
    }

    pub fn push(&mut self, snap: NetIoSnapshot)
        requires
            old(self).history.wf(),
        ensures
            final(self).iface == old(self).iface,
            final(self).rx == old(self).rx,
            final(self).tx == old(self).tx,
            final(self).history@ == pushed(old(self).history@, old(self).history.cap(), snap),
            final(self).history.cap() == old(self).history.cap(),
            final(self).history.wf(),
    {
        self.history.push(snap);
    }

    /// Applies one observation of the interface's cumulative byte counters:
    /// derives the per-interval deltas, appends them to the history, and
    /// records the counters as last seen.
    pub fn record(&mut self, rx_total: u64, tx_total: u64)
        requires
            old(self).history.wf(),
        ensures
            final(self).iface == old(self).iface,
            final(self).history@ == pushed(
                old(self).history@,
                old(self).history.cap(),
                (NetIoSnapshot {
                    rx_bytes: delta_spec(old(self).rx.previous, rx_total),
                    tx_bytes: delta_spec(old(self).tx.previous, tx_total),
                }),
            ),
            final(self).history.cap() == old(self).history.cap(),
            final(self).history.wf(),
            final(self).rx.previous == Some(rx_total),
            final(self).tx.previous == Some(tx_total),
    {
        let rx_bytes = self.rx.advance(rx_total);
        let tx_bytes = self.tx.advance(tx_total);
        self.history.push(NetIoSnapshot { rx_bytes, tx_bytes });
    }
}

/// The mathematical content of a disk stream: its name and its history.
pub open spec fn disk_model(entries: Seq<DiskHistory>) -> Seq<(Seq<char>, Seq<DiskIoSnapshot>)> {
    entries.map(|i: int, d: DiskHistory| (d.disk@, d.history@))
}

/// The mathematical content of an interface stream: its name, its history,
/// and the last-seen cumulative counters (receive, transmit).
pub open spec fn net_model(entries: Seq<NetHistory>) -> Seq<
    (Seq<char>, (Seq<NetIoSnapshot>, Option<u64>, Option<u64>)),
> {
    entries.map(|i: int, n: NetHistory| (n.iface@, (n.history@, n.rx.previous, n.tx.previous)))
}

/// Whether some stream in the registry carries this name.
pub open spec fn has_stream<S>(streams: Seq<(Seq<char>, S)>, name: Seq<char>) -> bool {
    exists|j: int| 0 <= j < streams.len() && streams[j].0 == name
}

/// The index of the stream carrying this name; meaningful when the name is
/// present and the registry's names are distinct.
pub open spec fn stream_index<S>(streams: Seq<(Seq<char>, S)>, name: Seq<char>) -> int {
    choose|j: int| 0 <= j < streams.len() && streams[j].0 == name
}

/// No two streams in the registry share a name.
pub open spec fn unique_names<S>(streams: Seq<(Seq<char>, S)>) -> bool {
    forall|i: int, j: int|
        0 <= i < j < streams.len() ==> (#[trigger] streams[i]).0 != (#[trigger] streams[j]).0
}

/// One disk observation applied to the registry: push onto the named stream's
/// history if the name is known, else append a fresh stream holding just this
/// observation.
pub open spec fn disk_upsert(
    streams: Seq<(Seq<char>, Seq<DiskIoSnapshot>)>,
    capacity: nat,
    name: Seq<char>,
    snap: DiskIoSnapshot,
) -> Seq<(Seq<char>, Seq<DiskIoSnapshot>)> {
    if has_stream(streams, name) {
        let j = stream_index(streams, name);
        streams.update(j, (name, pushed(streams[j].1, capacity, snap)))
    } else {
        streams.push((name, pushed(Seq::<DiskIoSnapshot>::empty(), capacity, snap)))
    }
}

/// A whole refresh's disk observations applied in order.
pub open spec fn disk_apply(
    streams: Seq<(Seq<char>, Seq<DiskIoSnapshot>)>,
    capacity: nat,
    readings: Seq<(Seq<char>, DiskIoSnapshot)>,
) -> Seq<(Seq<char>, Seq<DiskIoSnapshot>)>
    decreases readings.len(),
{
    if readings.len() == 0 {
        streams
    } else {
        disk_apply(
            disk_upsert(streams, capacity, readings.first().0, readings.first().1),
            capacity,
            readings.drop_first(),
        )
    }
}

/// One interface observation applied to the registry: derive deltas against
/// the stream's last-seen counters (zero for a fresh stream) and push them,
/// then record the counters.
pub open spec fn net_upsert(
    streams: Seq<(Seq<char>, (Seq<NetIoSnapshot>, Option<u64>, Option<u64>))>,
    capacity: nat,
    name: Seq<char>,
    rx_total: u64,
    tx_total: u64,
) -> Seq<(Seq<char>, (Seq<NetIoSnapshot>, Option<u64>, Option<u64>))> {
    if has_stream(streams, name) {
        let j = stream_index(streams, name);
        let snap = NetIoSnapshot {
            rx_bytes: delta_spec(streams[j].1.1, rx_total),
            tx_bytes: delta_spec(streams[j].1.2, tx_total),
        };
        streams.update(
            j,
            (name, (pushed(streams[j].1.0, capacity, snap), Some(rx_total), Some(tx_total))),
        )
    } else {
        let snap = NetIoSnapshot {
            rx_bytes: delta_spec(None::<u64>, rx_total),
            tx_bytes: delta_spec(None::<u64>, tx_total),
        };
        streams.push(
            (
                name,
                (
                    pushed(Seq::<NetIoSnapshot>::empty(), capacity, snap),
                    Some(rx_total),
                    Some(tx_total),
                ),
            ),
        )
    }
}

/// A whole refresh's interface observations applied in order.
pub open spec fn net_apply(
    streams: Seq<(Seq<char>, (Seq<NetIoSnapshot>, Option<u64>, Option<u64>))>,
    capacity: nat,
    readings: Seq<(Seq<char>, u64, u64)>,
) -> Seq<(Seq<char>, (Seq<NetIoSnapshot>, Option<u64>, Option<u64>))>
    decreases readings.len(),
{
    if readings.len() == 0 {
        streams
    } else {
        net_apply(
            net_upsert(
                streams,
                capacity,
                readings.first().0,
                readings.first().1,
                readings.first().2,
            ),
            capacity,
            readings.drop_first(),
        )
    }
}

/// Lazy creation law, unseen side: an observation carrying a name no stream
/// has appends exactly one fresh stream, holding just this observation, and
/// leaves every existing stream untouched.
pub proof fn lemma_disk_upsert_unseen(
    streams: Seq<(Seq<char>, Seq<DiskIoSnapshot>)>,
    capacity: nat,
    name: Seq<char>,
    snap: DiskIoSnapshot,
)
    requires
        !has_stream(streams, name),
    ensures
        disk_upsert(streams, capacity, name, snap).len() == streams.len() + 1,
        forall|j: int|
            0 <= j < streams.len() ==> disk_upsert(streams, capacity, name, snap)[j] == streams[j],
        disk_upsert(streams, capacity, name, snap)[streams.len() as int] == (
            name,
            pushed(Seq::<DiskIoSnapshot>::empty(), capacity, snap),
        ),
{
}

/// Lazy creation law, seen side: an observation carrying a known name updates
/// only that stream, pushing onto its history, and leaves every other stream
/// untouched.
pub proof fn lemma_disk_upsert_seen(
    streams: Seq<(Seq<char>, Seq<DiskIoSnapshot>)>,
    capacity: nat,
    name: Seq<char>,
    snap: DiskIoSnapshot,
)
    requires
        unique_names(streams),
        has_stream(streams, name),
    ensures
        disk_upsert(streams, capacity, name, snap).len() == streams.len(),
        ({
            let j = stream_index(streams, name);
            &&& 0 <= j < streams.len()
            &&& streams[j].0 == name
            &&& disk_upsert(streams, capacity, name, snap)[j] == (
                name,
                pushed(streams[j].1, capacity, snap),
            )
            &&& forall|k: int|
                0 <= k < streams.len() && k != j ==> disk_upsert(streams, capacity, name, snap)[k]
                    == streams[k]
        }),
{
}

/// Lazy creation law for interfaces, unseen side: a counter observation for a
/// name no stream has appends exactly one fresh stream whose only snapshot
/// reports zero deltas (the observation is a baseline, not a rate), and
/// leaves every existing stream untouched.
pub proof fn lemma_net_upsert_unseen(
    streams: Seq<(Seq<char>, (Seq<NetIoSnapshot>, Option<u64>, Option<u64>))>,
    capacity: nat,
    name: Seq<char>,
    rx_total: u64,
    tx_total: u64,
)
    requires
        !has_stream(streams, name),
    ensures
        net_upsert(streams, capacity, name, rx_total, tx_total).len() == streams.len() + 1,
        forall|j: int|
            0 <= j < streams.len() ==> net_upsert(streams, capacity, name, rx_total, tx_total)[j]
                == streams[j],
        net_upsert(streams, capacity, name, rx_total, tx_total)[streams.len() as int] == (
            name,
            (
                pushed(
                    Seq::<NetIoSnapshot>::empty(),
                    capacity,
                    (NetIoSnapshot { rx_bytes: 0, tx_bytes: 0 }),
                ),
                Some(rx_total),
                Some(tx_total),
            ),
        ),
{
}

/// Lazy creation law for interfaces, seen side: a counter observation for a
/// known name updates only that stream, pushing the deltas against its
/// last-seen counters, and leaves every other stream untouched.
pub proof fn lemma_net_upsert_seen(
    streams: Seq<(Seq<char>, (Seq<NetIoSnapshot>, Option<u64>, Option<u64>))>,
    capacity: nat,
    name: Seq<char>,
    rx_total: u64,
    tx_total: u64,
)
    requires
        unique_names(streams),
        has_stream(streams, name),
    ensures
        net_upsert(streams, capacity, name, rx_total, tx_total).len() == streams.len(),
        ({
            let j = stream_index(streams, name);
            &&& 0 <= j < streams.len()
            &&& streams[j].0 == name
            &&& net_upsert(streams, capacity, name, rx_total, tx_total)[j] == (
                name,
                (
                    pushed(
                        streams[j].1.0,
                        capacity,
                        (NetIoSnapshot {
                            rx_bytes: delta_spec(streams[j].1.1, rx_total),
                            tx_bytes: delta_spec(streams[j].1.2, tx_total),
                        }),
                    ),
                    Some(rx_total),
                    Some(tx_total),
                ),
            )
            &&& forall|k: int|
                0 <= k < streams.len() && k != j ==> net_upsert(
                    streams,
                    capacity,
                    name,
                    rx_total,
                    tx_total,
                )[k] == streams[k]
        }),
{
}

/// Either way an observation lands, the registry's names stay distinct.
pub proof fn lemma_disk_upsert_unique(
    streams: Seq<(Seq<char>, Seq<DiskIoSnapshot>)>,
    capacity: nat,
    name: Seq<char>,
    snap: DiskIoSnapshot,
)
    requires
        unique_names(streams),
    ensures
        unique_names(disk_upsert(streams, capacity, name, snap)),
{
    let out = disk_upsert(streams, capacity, name, snap);
    if has_stream(streams, name) {
        let j = stream_index(streams, name);
        assert(0 <= j < streams.len() && streams[j].0 == name);
        assert(forall|i: int| 0 <= i < out.len() ==> (#[trigger] out[i]).0 == streams[i].0);
    } else {
        assert forall|i: int| 0 <= i < streams.len() implies (#[trigger] streams[i]).0 != name by {
            if streams[i].0 == name {
                assert(has_stream(streams, name));
            }
        }
    }
}

/// Counterpart of `lemma_disk_upsert_unique` for interface streams.
pub proof fn lemma_net_upsert_unique(
    streams: Seq<(Seq<char>, (Seq<NetIoSnapshot>, Option<u64>, Option<u64>))>,
    capacity: nat,
    name: Seq<char>,
    rx_total: u64,
    tx_total: u64,
)
    requires
        unique_names(streams),
    ensures
        unique_names(net_upsert(streams, capacity, name, rx_total, tx_total)),
{
    let out = net_upsert(streams, capacity, name, rx_total, tx_total);
    if has_stream(streams, name) {
        let j = stream_index(streams, name);
        assert(0 <= j < streams.len() && streams[j].0 == name);
        assert(forall|i: int| 0 <= i < out.len() ==> (#[trigger] out[i]).0 == streams[i].0);
    } else {
        assert forall|i: int| 0 <= i < streams.len() implies (#[trigger] streams[i]).0 != name by {
            if streams[i].0 == name {
                assert(has_stream(streams, name));
            }
        }
    }
}

/// Applying one more observation after a batch is the same as applying the
/// batch and then the observation.
proof fn lemma_disk_apply_snoc(
    streams: Seq<(Seq<char>, Seq<DiskIoSnapshot>)>,
    capacity: nat,
    readings: Seq<(Seq<char>, DiskIoSnapshot)>,
    r: (Seq<char>, DiskIoSnapshot),
)
    ensures
        disk_apply(streams, capacity, readings.push(r)) == disk_upsert(
            disk_apply(streams, capacity, readings),
            capacity,
            r.0,
            r.1,
        ),
    decreases readings.len(),
{
    if readings.len() == 0 {
        assert(readings.push(r).first() == r);
        assert(readings.push(r).drop_first() =~= readings);
        assert(disk_apply(streams, capacity, readings.push(r)) == disk_apply(
            disk_upsert(streams, capacity, r.0, r.1),
            capacity,
            readings,
        ));
        assert(disk_apply(disk_upsert(streams, capacity, r.0, r.1), capacity, readings)
            == disk_upsert(streams, capacity, r.0, r.1));
        assert(disk_apply(streams, capacity, readings) == streams);
    } else {
        let s1 = disk_upsert(streams, capacity, readings.first().0, readings.first().1);
        assert(readings.push(r).first() == readings.first());
        assert(readings.push(r).drop_first() =~= readings.drop_first().push(r));
        assert(disk_apply(streams, capacity, readings.push(r)) == disk_apply(
            s1,
            capacity,
            readings.drop_first().push(r),
        ));
        lemma_disk_apply_snoc(s1, capacity, readings.drop_first(), r);
        assert(disk_apply(streams, capacity, readings) == disk_apply(
            s1,
            capacity,
            readings.drop_first(),
        ));
    }
}

/// Counterpart of `lemma_disk_apply_snoc` for interface streams.
proof fn lemma_net_apply_snoc(
    streams: Seq<(Seq<char>, (Seq<NetIoSnapshot>, Option<u64>, Option<u64>))>,
    capacity: nat,
    readings: Seq<(Seq<char>, u64, u64)>,
    r: (Seq<char>, u64, u64),
)
    ensures
        net_apply(streams, capacity, readings.push(r)) == net_upsert(
            net_apply(streams, capacity, readings),
            capacity,
            r.0,
            r.1,
            r.2,
        ),
    decreases readings.len(),
{
    if readings.len() == 0 {
        assert(readings.push(r).first() == r);
        assert(readings.push(r).drop_first() =~= readings);
        assert(net_apply(streams, capacity, readings.push(r)) == net_apply(
            net_upsert(streams, capacity, r.0, r.1, r.2),
            capacity,
            readings,
        ));
        assert(net_apply(net_upsert(streams, capacity, r.0, r.1, r.2), capacity, readings)
            == net_upsert(streams, capacity, r.0, r.1, r.2));
        assert(net_apply(streams, capacity, readings) == streams);
    } else {
        let s1 = net_upsert(
            streams,
            capacity,
            readings.first().0,
            readings.first().1,
            readings.first().2,
        );
        assert(readings.push(r).first() == readings.first());
        assert(readings.push(r).drop_first() =~= readings.drop_first().push(r));
        assert(net_apply(streams, capacity, readings.push(r)) == net_apply(
            s1,
            capacity,
            readings.drop_first().push(r),
        ));
        lemma_net_apply_snoc(s1, capacity, readings.drop_first(), r);
        assert(net_apply(streams, capacity, readings) == net_apply(
            s1,
            capacity,
            readings.drop_first(),
        ));
    }
}

/// Well-formedness of a disk registry: every history respects the shared
/// capacity and no two streams share a name.
pub open spec fn disks_wf(entries: Seq<DiskHistory>, capacity: nat) -> bool {
    &&& forall|i: int|
        0 <= i < entries.len() ==> (#[trigger] entries[i]).history.wf() && entries[i].history.cap()
            == capacity
    &&& unique_names(disk_model(entries))
}

/// Well-formedness of an interface registry.
pub open spec fn nets_wf(entries: Seq<NetHistory>, capacity: nat) -> bool {
    &&& forall|i: int|
        0 <= i < entries.len() ==> (#[trigger] entries[i]).history.wf() && entries[i].history.cap()
            == capacity
    &&& unique_names(net_model(entries))
}

/// Applies one disk observation to the registry, creating the stream on first
/// sight of its name.
#[verifier::loop_isolation(false)]
fn record_disk(entries: &mut Vec<DiskHistory>, capacity: usize, name: &String, snap: DiskIoSnapshot)
    requires
        disks_wf(old(entries)@, capacity as nat),
    ensures
        disks_wf(final(entries)@, capacity as nat),
        disk_model(final(entries)@) == disk_upsert(
            disk_model(old(entries)@),
            capacity as nat,
            name@,
            snap,
        ),
{
    let ghost m0 = disk_model(old(entries)@);
    proof {
        lemma_disk_upsert_unique(m0, capacity as nat, name@, snap);
    }
    let mut i: usize = 0;
    while i < entries.len()
        invariant
            i <= entries@.len(),
            entries@ == old(entries)@,
            forall|j: int| 0 <= j < i ==> (#[trigger] entries@[j]).disk@ != name@,
            disks_wf(entries@, capacity as nat),
        decreases entries@.len() - i,
    {
        if entries[i].disk == *name {
            let e = &mut entries[i];
            e.history.push(snap);
            proof {
                assert(m0[i as int].0 == name@);
                assert(has_stream(m0, name@));
                let j = stream_index(m0, name@);
                assert(0 <= j < m0.len() && m0[j].0 == name@);
                if j != i as int {
                    if j < i as int {
                        assert(m0[j].0 != m0[i as int].0);
                    } else {
                        assert(m0[i as int].0 != m0[j].0);
                    }
                }
                assert(j == i as int);
                assert(disk_model(entries@) =~= disk_upsert(m0, capacity as nat, name@, snap));
                assert(disks_wf(entries@, capacity as nat));
            }
            return;
        }
        i = i + 1;
    }
    proof {
        assert forall|j: int| 0 <= j < m0.len() implies (#[trigger] m0[j]).0 != name@ by {
            assert(m0[j].0 == entries@[j].disk@);
        }
        assert(!has_stream(m0, name@));
    }
    let mut d = DiskHistory::new(name.clone(), capacity);
    d.push(snap);
    entries.push(d);
    proof {
        assert(disk_model(entries@) =~= disk_upsert(m0, capacity as nat, name@, snap));
        assert(disks_wf(entries@, capacity as nat));
    }
}

/// Applies one interface observation to the registry, creating the stream on
/// first sight of its name.
#[verifier::loop_isolation(false)]
fn record_net(entries: &mut Vec<NetHistory>, capacity: usize, name: &String, rx_total: u64, tx_total: u64)
    requires
        nets_wf(old(entries)@, capacity as nat),
    ensures
        nets_wf(final(entries)@, capacity as nat),
        net_model(final(entries)@) == net_upsert(
            net_model(old(entries)@),
            capacity as nat,
            name@,
            rx_total,
            tx_total,
        ),
{
    let ghost m0 = net_model(old(entries)@);
    proof {
        lemma_net_upsert_unique(m0, capacity as nat, name@, rx_total, tx_total);
    }
    let mut i: usize = 0;
    while i < entries.len()
        invariant
            i <= entries@.len(),
            entries@ == old(entries)@,
            forall|j: int| 0 <= j < i ==> (#[trigger] entries@[j]).iface@ != name@,
            nets_wf(entries@, capacity as nat),
        decreases entries@.len() - i,
    {
        if entries[i].iface == *name {
            let e = &mut entries[i];
            e.record(rx_total, tx_total);
            proof {
                assert(m0[i as int].0 == name@);
                assert(has_stream(m0, name@));
                let j = stream_index(m0, name@);
                assert(0 <= j < m0.len() && m0[j].0 == name@);
                if j != i as int {
                    if j < i as int {
                        assert(m0[j].0 != m0[i as int].0);
                    } else {
                        assert(m0[i as int].0 != m0[j].0);
                    }
                }
                assert(j == i as int);
                assert(net_model(entries@) =~= net_upsert(
                    m0,
                    capacity as nat,
                    name@,
                    rx_total,
                    tx_total,
                ));
                assert(nets_wf(entries@, capacity as nat));
            }
            return;
        }
        i = i + 1;
    }
    proof {
        assert forall|j: int| 0 <= j < m0.len() implies (#[trigger] m0[j]).0 != name@ by {
            assert(m0[j].0 == entries@[j].iface@);
        }
        assert(!has_stream(m0, name@));
    }
    let mut n = NetHistory::new(name.clone(), capacity);
    n.record(rx_total, tx_total);
    entries.push(n);
    proof {
        assert(net_model(entries@) =~= net_upsert(m0, capacity as nat, name@, rx_total, tx_total));
        assert(nets_wf(entries@, capacity as nat));
    }
}

/// Used space reported for a disk, clamped to zero if the reading is
/// inconsistent (more bytes available than the total).
pub open spec fn disk_used_spec(total: u64, available: u64) -> u64 {
    if available <= total {
        (total - available) as u64
    } else {
        0
    }
}

/// One disk as reported by the collaborator: its name and its total and
/// available space in bytes.
pub struct DiskReading {
    pub name: String,
    pub total_bytes: u64,
    pub available_bytes: u64,
}

impl DiskReading {
    /// The snapshot this reading contributes to the disk's history.
    pub open spec fn snap_spec(&self) -> DiskIoSnapshot {
        DiskIoSnapshot { used_bytes: disk_used_spec(self.total_bytes, self.available_bytes) }
    }
}

/// One network interface as reported by the collaborator: its name and its
/// cumulative received and transmitted byte counters.
pub struct NetReading {
    pub name: String,
    pub rx_total: u64,
    pub tx_total: u64,
}

/// The names and snapshots a batch of disk readings contributes, in order.
pub open spec fn disk_readings_model(rs: Seq<DiskReading>) -> Seq<(Seq<char>, DiskIoSnapshot)> {
    rs.map(|i: int, d: DiskReading| (d.name@, d.snap_spec()))
}

/// The names and counters a batch of interface readings carries, in order.
pub open spec fn net_readings_model(rs: Seq<NetReading>) -> Seq<(Seq<char>, u64, u64)> {
    rs.map(|i: int, n: NetReading| (n.name@, n.rx_total, n.tx_total))
}

/// Applies a refresh's disk readings to the registry, in order.
#[verifier::loop_isolation(false)]
fn record_disks(entries: &mut Vec<DiskHistory>, capacity: usize, readings: &Vec<DiskReading>)
    requires
        disks_wf(old(entries)@, capacity as nat),
    ensures
        disks_wf(final(entries)@, capacity as nat),
        disk_model(final(entries)@) == disk_apply(
            disk_model(old(entries)@),
            capacity as nat,
            disk_readings_model(readings@),
        ),
{
    let ghost m0 = disk_model(old(entries)@);
    let ghost rm = disk_readings_model(readings@);
    proof {
        assert(rm.take(0) =~= Seq::<(Seq<char>, DiskIoSnapshot)>::empty());
    }
    let mut i: usize = 0;
    while i < readings.len()
        invariant
            i <= readings@.len(),
            disks_wf(entries@, capacity as nat),
            disk_model(entries@) == disk_apply(m0, capacity as nat, rm.take(i as int)),
        decreases readings@.len() - i,
    {
        let r = &readings[i];
        let used = if r.available_bytes <= r.total_bytes {
            r.total_bytes - r.available_bytes
        } else {
            0
        };
        let snap = DiskIoSnapshot { used_bytes: used };
        record_disk(entries, capacity, &r.name, snap);
        proof {
            assert(rm[i as int] == (r.name@, r.snap_spec()));
            assert(snap == r.snap_spec());
            assert(rm.take(i as int + 1) =~= rm.take(i as int).push(rm[i as int]));
            lemma_disk_apply_snoc(m0, capacity as nat, rm.take(i as int), rm[i as int]);
        }
        i = i + 1;
    }
    proof {
        assert(rm.take(readings@.len() as int) =~= rm);
    }
}

/// Applies a refresh's interface readings to the registry, in order.
#[verifier::loop_isolation(false)]
fn record_nets(entries: &mut Vec<NetHistory>, capacity: usize, readings: &Vec<NetReading>)
    requires
        nets_wf(old(entries)@, capacity as nat),
    ensures
        nets_wf(final(entries)@, capacity as nat),
        net_model(final(entries)@) == net_apply(
            net_model(old(entries)@),
            capacity as nat,
            net_readings_model(readings@),
        ),
{
    let ghost m0 = net_model(old(entries)@);
    let ghost rm = net_readings_model(readings@);
    proof {
        assert(rm.take(0) =~= Seq::<(Seq<char>, u64, u64)>::empty());
    }
    let mut i: usize = 0;
    while i < readings.len()
        invariant
            i <= readings@.len(),
            nets_wf(entries@, capacity as nat),
            net_model(entries@) == net_apply(m0, capacity as nat, rm.take(i as int)),
        decreases readings@.len() - i,
    {
        let r = &readings[i];
        record_net(entries, capacity, &r.name, r.rx_total, r.tx_total);
        proof {
            assert(rm[i as int] == (r.name@, r.rx_total, r.tx_total));
            assert(rm.take(i as int + 1) =~= rm.take(i as int).push(rm[i as int]));
            lemma_net_apply_snoc(m0, capacity as nat, rm.take(i as int), rm[i as int]);
        }
        i = i + 1;
    }
    proof {
        assert(rm.take(readings@.len() as int) =~= rm);
    }
}

/// Pushes this refresh's usage sample onto each core's history; cores beyond
/// the readings, or readings beyond the cores, are ignored.
#[verifier::loop_isolation(false)]
fn record_cpus(histories: &mut Vec<History<u64>>, usages: &Vec<u64>)
    requires
        forall|i: int| 0 <= i < old(histories)@.len() ==> (#[trigger] old(histories)@[i]).wf(),
    ensures
        final(histories)@.len() == old(histories)@.len(),
        forall|i: int|
            0 <= i < old(histories)@.len() ==> (#[trigger] final(histories)@[i]).cap() == old(
                histories,
            )@[i].cap() && final(histories)@[i].wf(),
        forall|i: int|
            0 <= i < old(histories)@.len() ==> (#[trigger] final(histories)@[i])@ == (if i
                < usages@.len() {
                pushed(old(histories)@[i]@, old(histories)@[i].cap(), usages@[i])
            } else {
                old(histories)@[i]@
            }),
{
    let n = if histories.len() <= usages.len() {
        histories.len()
    } else {
        usages.len()
    };
    let mut i: usize = 0;
    while i < n
        invariant
            i <= n,
            histories@.len() == old(histories)@.len(),
            forall|j: int| i <= j < histories@.len() ==> histories@[j] == old(histories)@[j],
            forall|j: int|
                0 <= j < i ==> (#[trigger] histories@[j]).cap() == old(histories)@[j].cap()
                    && histories@[j].wf() && histories@[j]@ == pushed(
                    old(histories)@[j]@,
                    old(histories)@[j].cap(),
                    usages@[j],
                ),
        decreases n - i,
    {
        let u = usages[i];
        let h = &mut histories[i];
        h.push(u);
        i = i + 1;
    }
}

/// Default number of samples each stream retains.
pub const DEFAULT_CAPACITY: usize = 60;

/// One complete reading set pulled from the operating-system collaborator at
/// a refresh tick. CPU usage is in hundredths of a percent per core; memory
/// and swap figures are in the collaborator's units.
pub struct Reading {
    pub cpu_centi: Vec<u64>,
    pub mem_total: u64,
    pub mem_used: u64,
    pub swap_total: u64,
    pub swap_used: u64,
    pub disks: Vec<DiskReading>,
    pub nets: Vec<NetReading>,
    pub processes: Vec<ProcessInfo>,
}

/// The single owner of every metric history: per-core CPU and memory gauges
/// are pushed directly, disk and interface streams are created lazily by name
/// and fed through delta derivation where the source is a cumulative counter.
pub struct SystemInfo {
    capacity: usize,
    cpu_histories: Vec<History<u64>>,
    mem_history: History<u64>,
    mem_total: u64,
    mem_used: u64,
    swap_total: u64,
    swap_used: u64,
    disk_histories: Vec<DiskHistory>,
    net_histories: Vec<NetHistory>,
    processes: Vec<ProcessInfo>,
}

impl SystemInfo {
    /// The capacity every stream was constructed with.
    pub closed spec fn cap(&self) -> nat {
        self.capacity as nat
    }

    /// Per-core CPU usage histories, oldest sample first.
    pub closed spec fn cpu_view(&self) -> Seq<Seq<u64>> {
        self.cpu_histories@.map(|i: int, h: History<u64>| h@)
    }

    /// Used-memory history, oldest sample first.
    pub closed spec fn mem_view(&self) -> Seq<u64> {
        self.mem_history@
    }

    /// The disk streams: name and usage history, in order of first sight.
    pub closed spec fn disk_view(&self) -> Seq<(Seq<char>, Seq<DiskIoSnapshot>)> {
        disk_model(self.disk_histories@)
    }

    /// The interface streams: name, throughput history, and last-seen
    /// counters, in order of first sight.
    pub closed spec fn net_view(&self) -> Seq<
        (Seq<char>, (Seq<NetIoSnapshot>, Option<u64>, Option<u64>)),
    > {
        net_model(self.net_histories@)
    }

    /// The process list of the most recent refresh, unsorted.
    pub closed spec fn procs_view(&self) -> Seq<ProcessInfo> {
        self.processes@
    }

    pub closed spec fn mem_total_v(&self) -> u64 {
        self.mem_total
    }

    pub closed spec fn mem_used_v(&self) -> u64 {
        self.mem_used
    }

    pub closed spec fn swap_total_v(&self) -> u64 {
        self.swap_total
    }

    pub closed spec fn swap_used_v(&self) -> u64 {
        self.swap_used
    }

    /// Every stream respects the shared capacity, and disk and interface
    /// names are distinct.
    pub closed spec fn wf(&self) -> bool {
        &&& self.mem_history.wf() && self.mem_history.cap() == self.cap()
        &&& forall|i: int|
            0 <= i < self.cpu_histories@.len() ==> (#[trigger] self.cpu_histories@[i]).wf()
                && self.cpu_histories@[i].cap() == self.cap()
        &&& disks_wf(self.disk_histories@, self.cap())
        &&& nets_wf(self.net_histories@, self.cap())
    }

    /// A fresh aggregator: one empty history per CPU core, an empty memory
    /// history, and no disk or interface streams yet.
    #[verifier::loop_isolation(false)]
    pub fn new(capacity: usize, n_cores: usize) -> (s: Self)
        ensures
            s.wf(),
            s.cap() == capacity,
            s.cpu_view().len() == n_cores,
            forall|i: int| 0 <= i < n_cores ==> s.cpu_view()[i] == Seq::<u64>::empty(),
            s.mem_view() == Seq::<u64>::empty(),
            s.disk_view() == Seq::<(Seq<char>, Seq<DiskIoSnapshot>)>::empty(),
            s.net_view() == Seq::<
                (Seq<char>, (Seq<NetIoSnapshot>, Option<u64>, Option<u64>)),
            >::empty(),
            s.procs_view() == Seq::<ProcessInfo>::empty(),
            s.mem_total_v() == 0,
            s.mem_used_v() == 0,
            s.swap_total_v() == 0,
            s.swap_used_v() == 0,
    {
        let mut cpu_histories: Vec<History<u64>> = Vec::new();
        let mut i: usize = 0;
        while i < n_cores
            invariant
                i <= n_cores,
                cpu_histories@.len() == i,
                forall|j: int|
                    0 <= j < i ==> (#[trigger] cpu_histories@[j]).wf() && cpu_histories@[j].cap()
                        == capacity && cpu_histories@[j]@ == Seq::<u64>::empty(),
            decreases n_cores - i,
        {
            cpu_histories.push(History::new(capacity));
            i = i + 1;
        }
        let s = SystemInfo {
            capacity,
            cpu_histories,
            mem_history: History::new(capacity),
            mem_total: 0,
            mem_used: 0,
            swap_total: 0,
            swap_used: 0,
            disk_histories: Vec::new(),
            net_histories: Vec::new(),
            processes: Vec::new(),
        };
        proof {
            assert(s.disk_view() =~= Seq::<(Seq<char>, Seq<DiskIoSnapshot>)>::empty());
            assert(s.net_view() =~= Seq::<
                (Seq<char>, (Seq<NetIoSnapshot>, Option<u64>, Option<u64>)),
            >::empty());
        }
        s
    }

    /// Applies one reading set: pushes the CPU and memory gauges, feeds each
    /// disk and interface observation to its stream (creating streams for
    /// names first seen), records the current gauge totals, and replaces the
    /// process snapshot.
    pub fn refresh(&mut self, reading: Reading)
        requires
            old(self).wf(),
        ensures
            final(self).wf(),
            final(self).cap() == old(self).cap(),
            final(self).cpu_view().len() == old(self).cpu_view().len(),
            forall|i: int|
                0 <= i < old(self).cpu_view().len() ==> final(self).cpu_view()[i] == (if i
                    < reading.cpu_centi@.len() {
                    pushed(old(self).cpu_view()[i], old(self).cap(), reading.cpu_centi@[i])
                } else {
                    old(self).cpu_view()[i]
                }),
            final(self).mem_view() == pushed(
                old(self).mem_view(),
                old(self).cap(),
                reading.mem_used,
            ),
            final(self).disk_view() == disk_apply(
                old(self).disk_view(),
                old(self).cap(),
                disk_readings_model(reading.disks@),
            ),
            final(self).net_view() == net_apply(
                old(self).net_view(),
                old(self).cap(),
                net_readings_model(reading.nets@),
            ),
            final(self).procs_view() == reading.processes@,
            final(self).mem_total_v() == reading.mem_total,
            final(self).mem_used_v() == reading.mem_used,
            final(self).swap_total_v() == reading.swap_total,
            final(self).swap_used_v() == reading.swap_used,
    {
        record_cpus(&mut self.cpu_histories, &reading.cpu_centi);
        self.mem_history.push(reading.mem_used);
        record_disks(&mut self.disk_histories, self.capacity, &reading.disks);
        record_nets(&mut self.net_histories, self.capacity, &reading.nets);
        self.mem_total = reading.mem_total;
        self.mem_used = reading.mem_used;
        self.swap_total = reading.swap_total;
        self.swap_used = reading.swap_used;
        self.processes = reading.processes;
    }

    /// The most recent usage sample of each core, zero for a core that has
    /// not been sampled yet.
    #[verifier::loop_isolation(false)]
    pub fn cpu_usages(&self) -> (u: Vec<u64>)
        ensures
            u@.len() == self.cpu_view().len(),
            forall|i: int|
                0 <= i < u@.len() ==> u@[i] == (if self.cpu_view()[i].len() > 0 {
                    self.cpu_view()[i].last()
                } else {
                    0
                }),
    {
        let mut u: Vec<u64> = Vec::new();
        let mut i: usize = 0;
        while i < self.cpu_histories.len()
            invariant
                i <= self.cpu_histories@.len(),
                u@.len() == i,
                forall|j: int|
                    0 <= j < i ==> u@[j] == (if self.cpu_view()[j].len() > 0 {
                        self.cpu_view()[j].last()
                    } else {
                        0
                    }),
            decreases self.cpu_histories@.len() - i,
        {
            let h = &self.cpu_histories[i];
            let n = h.len();
            if n > 0 {
                let s = h.snapshot();
                u.push(s[n - 1]);
            } else {
                u.push(0);
            }
            i = i + 1;
        }
        u
    }

    /// The per-core CPU histories for rendering.
    pub fn cpu_history(&self) -> (h: &Vec<History<u64>>)
        ensures
            h@.len() == self.cpu_view().len(),
            forall|i: int| 0 <= i < h@.len() ==> (#[trigger] h@[i])@ == self.cpu_view()[i],
    {
        &self.cpu_histories
    }

    /// The used-memory history for rendering.
    pub fn mem_history(&self) -> (h: &History<u64>)
        ensures
            h@ == self.mem_view(),
    {
        &self.mem_history
    }

    /// The disk streams for rendering.
    pub fn disk_histories(&self) -> (h: &Vec<DiskHistory>)
        ensures
            disk_model(h@) == self.disk_view(),
    {
        &self.disk_histories
    }

    /// The interface streams for rendering.
    pub fn net_histories(&self) -> (h: &Vec<NetHistory>)
        ensures
            net_model(h@) == self.net_view(),
    {
        &self.net_histories
    }

    /// The most recent process snapshot, ordered by CPU usage descending.
    pub fn processes(&self) -> (sorted: Vec<ProcessInfo>)
        ensures
            sorted_by_cpu_desc(sorted@),
            sorted@.to_multiset() == self.procs_view().to_multiset(),
    {
        sort_by_cpu(&self.processes)
    }

    pub fn mem_total(&self) -> (v: u64)
        ensures
            v == self.mem_total_v(),
    {
        self.mem_total
    }

    pub fn mem_used(&self) -> (v: u64)
        ensures
            v == self.mem_used_v(),
    {
        self.mem_used
    }

    pub fn swap_total(&self) -> (v: u64)
        ensures
            v == self.swap_total_v(),
    {
        self.swap_total
    }

    pub fn swap_used(&self) -> (v: u64)
        ensures
            v == self.swap_used_v(),
    {
        self.swap_used
    }
}

} // verus!
