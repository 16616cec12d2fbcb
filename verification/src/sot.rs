//! A team (SOT): a labor resource with a fixed headcount and efficiency
//! factor, assigned to a subset of stations. Each tick it records how much of
//! its labor budget it actually spent.
use vstd::prelude::*;
use crate::msn::{MSN, MsnV, spec_work_tasks};
use crate::{CVAT_ONE, MAX_TACT};

verus! {

/// The mathematical value of an [`SOT`]. Utilization is recorded exactly, as
/// the pair (labor spent, labor budget) of one tick.
pub ghost struct SotV {
    pub name: Seq<char>,
    pub stations: Seq<Seq<char>>,
    pub workers: u16,
    pub cvat: u64,
    pub utilization: Seq<(u64, u64)>,
}

impl SotV {
    /// A team is well formed when it has at least one worker, an efficiency
    /// factor between one thousandth and one, and every recorded utilization
    /// entry spends no more than its budget.
    pub open spec fn wf(self) -> bool {
        &&& self.workers >= 1
        &&& 1 <= self.cvat <= CVAT_ONE
        &&& forall|i: int| 0 <= i < self.utilization.len()
            ==> (#[trigger] self.utilization[i]).0 <= self.utilization[i].1
                && self.utilization[i].1 >= 1
    }

    /// Labor capacity per time unit: headcount times efficiency factor.
    pub open spec fn capacity(self) -> int {
        self.workers * self.cvat
    }

    /// A well-formed team's capacity lies between one and the global bound.
    pub proof fn lemma_capacity_bounds(self)
        requires
            self.wf(),
        ensures
            1 <= self.capacity() <= 0xFFFF * CVAT_ONE,
    {
        assert(1 <= self.workers * self.cvat <= 0xFFFF * CVAT_ONE) by (nonlinear_arith)
            requires
                1 <= self.workers <= 0xFFFF,
                1 <= self.cvat <= CVAT_ONE,
        ;
    }

    /// Labor budget for one tick of the given duration.
    pub open spec fn budget(self, tact_time: u64) -> int {
        self.capacity() * tact_time
    }
}

#[derive(Debug)]
pub struct SOT {
    name: String,
    station_assignment: Vec<String>,
    workers: u16,
    cvat: u64,
    utilization: Vec<(u64, u64)>,
}

impl View for SOT {
    type V = SotV;

    closed spec fn view(&self) -> SotV {
        SotV {
            name: self.name@,
            stations: self.station_assignment@.map_values(|s: String| s@),
            workers: self.workers,
            cvat: self.cvat,
            utilization: self.utilization@,
        }
    }
}

impl SOT {
    /// A fresh team with no utilization history. The efficiency factor is
    /// given in thousandths and must lie in (0, 1]; a team with no workers or
    /// no capacity is a configuration error and is ruled out here.
    pub fn new(name: &str, station_assignment: Vec<String>, workers: u16, cvat: u64) -> (s: SOT)
        requires
            workers >= 1,
            1 <= cvat <= CVAT_ONE,
        ensures
            s@ == (SotV {
                name: name@,
                stations: station_assignment@.map_values(|s: String| s@),
                workers,
                cvat,
                utilization: Seq::empty(),
            }),
            s@.wf(),
    {
        SOT {
            name: name.to_owned(),
            station_assignment,
            workers,
            cvat,
            utilization: Vec::new(),
        }
    }

    pub fn get_name(&self) -> (r: String)
        ensures
            r@ == self@.name,
    {
        self.name.clone()
    }

    pub fn get_stations(&self) -> (r: Vec<String>)
        ensures
            r@.map_values(|s: String| s@) == self@.stations,
    {
        let mut r: Vec<String> = Vec::new();
        let mut i: usize = 0;
        #[verifier::loop_isolation(false)]
        while i < self.station_assignment.len()
            invariant
                i <= self.station_assignment.len(),
                r@.map_values(|s: String| s@) =~= self@.stations.take(i as int),
            decreases self.station_assignment.len() - i,
        {
            r.push(self.station_assignment[i].clone());
            i += 1;
            assert(r@.map_values(|s: String| s@) =~= self@.stations.take(i as int));
        }
        proof {
            assert(self@.stations.take(self.station_assignment.len() as int) =~= self@.stations);
        }
        r
    }

    /// This team's labor capacity per time unit.
    pub fn capacity(&self) -> (r: u64)
        requires
            self@.wf(),
        ensures
            r == self@.capacity(),
            1 <= r <= 0xFFFF * CVAT_ONE,
    {
        proof {
            self@.lemma_capacity_bounds();
        }
        (self.workers as u64) * self.cvat
    }

    /// This team's labor budget for one tick of the given duration.
    pub fn budget(&self, tact_time: u64) -> (r: u64)
        requires
            self@.wf(),
            1 <= tact_time <= MAX_TACT,
        ensures
            r == self@.budget(tact_time),
            1 <= r <= 0xFFFF * CVAT_ONE * MAX_TACT,
    {
        proof {
            self@.lemma_capacity_bounds();
            assert(self@.capacity() * tact_time <= 0xFFFF * CVAT_ONE * MAX_TACT)
                by (nonlinear_arith)
                requires
                    1 <= self@.capacity() <= 0xFFFF * CVAT_ONE,
                    1 <= tact_time <= MAX_TACT,
            ;
            assert(self@.capacity() * tact_time >= 1) by (nonlinear_arith)
                requires
                    self@.capacity() >= 1,
                    tact_time >= 1,
            ;
        }
        self.capacity() * tact_time
    }

    /// Works the given tasks of a work-unit, in order, one task to completion
    /// before the next, until the budget runs out; hands back the leftover
    /// budget.
    pub fn work(&self, msn: &mut MSN, idxs: &Vec<usize>, available: u64) -> (r: u64)
        ensures
            final(msn)@ == (MsnV {
                tasks: spec_work_tasks(old(msn)@.tasks, idxs@, available).0,
                ..old(msn)@
            }),
            r == spec_work_tasks(old(msn)@.tasks, idxs@, available).1,
    {
        msn.work_tasks(idxs, available)
    }

    pub fn get_utilization(&self) -> (r: Vec<(u64, u64)>)
        ensures
            r@ == self@.utilization,
    {
        let mut r: Vec<(u64, u64)> = Vec::new();
        let mut i: usize = 0;
        #[verifier::loop_isolation(false)]
        while i < self.utilization.len()
            invariant
                i <= self.utilization.len(),
                r@ =~= self@.utilization.take(i as int),
            decreases self.utilization.len() - i,
        {
            r.push(self.utilization[i]);
            i += 1;
            assert(r@ =~= self@.utilization.take(i as int));
        }
        proof {
            assert(self@.utilization.take(self.utilization.len() as int) =~= self@.utilization);
        }
        r
    }

    /// Records one tick's utilization: `used` labor units spent out of a
    /// budget of `total`.
    pub fn add_utilization(&mut self, used: u64, total: u64)
        requires
            used <= total,
            total >= 1,
        ensures
            final(self)@ == (SotV {
                utilization: old(self)@.utilization.push((used, total)),
                ..old(self)@
            }),
    {
        self.utilization.push((used, total));
    }
}

} // verus!
