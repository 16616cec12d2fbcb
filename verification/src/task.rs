//! A task: a unit of remaining labor bound to a team, a product variant and
//! one or more line positions.
use vstd::prelude::*;
use crate::MAX_WORKLOAD;

verus! {

/// The mathematical value of a [`Task`]: names as character sequences,
/// workload as an exact count of labor units.
pub ghost struct TaskV {
    pub workload: u64,
    pub stations: Seq<Seq<char>>,
    pub sot: Seq<char>,
    pub version: Seq<char>,
}

impl TaskV {
    /// A task is well formed when its workload stays under the global bound,
    /// so that summing the tasks of one work-unit cannot overflow.
    pub open spec fn wf(self) -> bool {
        self.workload <= MAX_WORKLOAD
    }
}

/// Splits a labor budget against one task's remaining workload: returns the
/// workload left on the task and the budget left over. Exactly one of the two
/// is zero unless both are.
pub open spec fn spec_consume(workload: u64, available: u64) -> (u64, u64) {
    if workload <= available {
        (0u64, (available - workload) as u64)
    } else {
        ((workload - available) as u64, 0u64)
    }
}

#[derive(Debug)]
pub struct Task {
    workload: u64,
    stations: Vec<String>,
    sot: String,
    version: String,
}

impl View for Task {
    type V = TaskV;

    closed spec fn view(&self) -> TaskV {
        TaskV {
            workload: self.workload,
            stations: self.stations@.map_values(|s: String| s@),
            sot: self.sot@,
            version: self.version@,
        }
    }
}

impl Clone for Task {
    fn clone(&self) -> (r: Self)
        ensures
            r@ == self@,
    {
        Task {
            workload: self.workload,
            stations: clone_strings(&self.stations),
            sot: self.sot.clone(),
            version: self.version.clone(),
        }
    }
}

/// Clones a vector of strings, keeping its mathematical value.
fn clone_strings(v: &Vec<String>) -> (r: Vec<String>)
    ensures
        r@ == v@,
{
    let mut r: Vec<String> = Vec::new();
    let mut i: usize = 0;
    while i < v.len()
        invariant
            i <= v.len(),
            r@ == v@.take(i as int),
        decreases v.len() - i,
    {
        r.push(v[i].clone());
        i += 1;
        proof {
            assert(r@ =~= v@.take(i as int));
        }
    }
    proof {
        assert(v@.take(v.len() as int) =~= v@);
    }
    r
}

impl Task {
    pub fn new(workload: u64, stations: Vec<String>, sot: String, version: String) -> (t: Task)
        requires
            workload <= MAX_WORKLOAD,
        ensures
            t@ == (TaskV {
                workload,
                stations: stations@.map_values(|s: String| s@),
                sot: sot@,
                version: version@,
            }),
            t@.wf(),
    {
        Task { workload, stations, sot, version }
    }

    /// Burns `available` labor units against the record's workload and hands
    /// back the units that were not needed. The workload never goes below
    /// zero: when the budget covers it, the workload ends at exactly zero and
    /// the surplus comes back; otherwise the whole budget is used up.
    pub fn work_and_get_remaining_time(&mut self, available: u64) -> (r: u64)
        ensures
            final(self)@ == (TaskV { workload: spec_consume(old(self)@.workload, available).0, ..old(self)@ }),
            r == spec_consume(old(self)@.workload, available).1,
            final(self)@.workload <= old(self)@.workload,
            r <= available,
    {
        if self.workload <= available {
            let r = available - self.workload;
            self.workload = 0;
            r
        } else {
            self.workload = self.workload - available;
            0
        }
    }

    pub fn get_stations(&self) -> (r: Vec<String>)
        ensures
            r@.map_values(|s: String| s@) == self@.stations,
    {
        let r = clone_strings(&self.stations);
        proof {
            assert(r@.map_values(|s: String| s@) =~= self@.stations);
        }
        r
    }

    pub fn get_workload(&self) -> (r: u64)
        ensures
            r == self@.workload,
    {
        self.workload
    }

    pub fn get_version(&self) -> (r: &str)
        ensures
            r@ == self@.version,
    {
        self.version.as_str()
    }

    pub fn get_sot(&self) -> (r: &String)
        ensures
            r@ == self@.sot,
    {
        &self.sot
    }

    /// Whether the record may be worked at the station of the given name.
    pub fn eligible_at(&self, station_name: &String) -> (r: bool)
        ensures
            r == self@.stations.contains(station_name@),
    {
        let mut i: usize = 0;
        while i < self.stations.len()
            invariant
                i <= self.stations.len(),
                forall|j: int| 0 <= j < i ==> self@.stations[j] != station_name@,
            decreases self.stations.len() - i,
        {
            if self.stations[i] == *station_name {
                proof {
                    assert(self@.stations[i as int] == station_name@);
                }
                return true;
            }
            i += 1;
        }
        proof {
            if self@.stations.contains(station_name@) {
                let j = choose|j: int| 0 <= j < self@.stations.len() && self@.stations[j] == station_name@;
                assert(false);
            }
        }
        false
    }

    /// Whether the record belongs to the product variant of the given name.
    pub fn has_version(&self, version: &String) -> (r: bool)
        ensures
            r == (self@.version == version@),
    {
        self.version == *version
    }

    /// Whether the record belongs to the team of the given name.
    pub fn owned_by(&self, sot_name: &String) -> (r: bool)
        ensures
            r == (self@.sot == sot_name@),
    {
        self.sot == *sot_name
    }
}

} // verus!
