//! Process snapshots and ordering by CPU usage.

use vstd::prelude::*;

verus! {

/// One process observed at a refresh. CPU usage is held in hundredths of a
/// percent and memory in bytes, so the record carries plain integers; the
/// caller converts for display.
pub struct ProcessInfo {
    pub pid: u64,
    pub name: String,
    pub cpu_centi: u64,
    pub memory_bytes: u64,
}

impl Clone for ProcessInfo {
    fn clone(&self) -> (res: Self)
        ensures
            res == *self,
    {
        ProcessInfo {
            pid: self.pid,
            name: self.name.clone(),
            cpu_centi: self.cpu_centi,
            memory_bytes: self.memory_bytes,
        }
    }
}

/// Ordered by CPU usage, highest first.
pub open spec fn sorted_by_cpu_desc(s: Seq<ProcessInfo>) -> bool {
    forall|i: int, j: int| 0 <= i <= j < s.len() ==> s[i].cpu_centi >= s[j].cpu_centi
}

/// Returns the given processes ordered by CPU usage descending. The result is
/// a permutation of the input; the order among processes with equal CPU usage
/// is not specified.
pub fn sort_by_cpu(list: &Vec<ProcessInfo>) -> (sorted: Vec<ProcessInfo>)
    ensures
        sorted_by_cpu_desc(sorted@),
        sorted@.to_multiset() == list@.to_multiset(),
{
    broadcast use vstd::seq_lib::group_to_multiset_ensures, vstd::seq_lib::to_multiset_insert;

    let mut sorted: Vec<ProcessInfo> = Vec::new();
    let mut i: usize = 0;
    while i < list.len()
        invariant
            i <= list.len(),
            sorted_by_cpu_desc(sorted@),
            sorted@.to_multiset() == list@.take(i as int).to_multiset(),
        decreases list.len() - i,
    {
        let item = list[i].clone();
        let mut k: usize = 0;
        while k < sorted.len() && sorted[k].cpu_centi >= item.cpu_centi
            invariant
                k <= sorted@.len(),
                forall|j: int| 0 <= j < k ==> sorted@[j].cpu_centi >= item.cpu_centi,
            decreases sorted@.len() - k,
        {
            k = k + 1;
        }
        let ghost prev = sorted@;
        sorted.insert(k, item);
        proof {
            broadcast use vstd::seq_lib::group_to_multiset_ensures, vstd::seq_lib::to_multiset_insert;

            assert forall|a: int, b: int| 0 <= a <= b < sorted@.len() implies sorted@[a].cpu_centi
                >= sorted@[b].cpu_centi by {
                if a < k && b < k {
                } else if a < k && b == k {
                } else if a == k && b > k {
                    assert(prev[b - 1].cpu_centi <= prev[k as int].cpu_centi);
                } else if a < k && b > k {
                    assert(prev[b - 1].cpu_centi <= prev[k as int].cpu_centi);
                } else if a == k && b == k {
                } else {
                    assert(sorted@[a] == prev[a - 1]);
                    assert(sorted@[b] == prev[b - 1]);
                }
            }
            assert(list@.take(i + 1) =~= list@.take(i as int).push(list@[i as int]));
        }
        i = i + 1;
    }
    proof {
        assert(list@.take(list.len() as int) =~= list@);
    }
    sorted
}

} // verus!
