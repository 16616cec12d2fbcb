//! A work-unit (MSN): one item flowing through the line. It owns the task
//! records matching its product variant; only their workloads change after
//! construction.
use vstd::prelude::*;
use crate::task::{Task, TaskV, spec_consume};
use crate::{MAX_TASKS, MAX_WORKLOAD};

verus! {

/// The mathematical value of an [`MSN`].
pub ghost struct MsnV {
    pub msn: u32,
    pub version: Seq<char>,
    pub tasks: Seq<TaskV>,
}

impl MsnV {
    /// A work-unit is well formed when its task count is bounded and every
    /// task is; the total workload then fits comfortably in a machine word.
    pub open spec fn wf(self) -> bool {
        &&& self.tasks.len() <= MAX_TASKS
        &&& forall|i: int| 0 <= i < self.tasks.len() ==> #[trigger] self.tasks[i].wf()
    }

    /// Total remaining workload: the sum of the tasks' workloads.
    pub open spec fn total_workload(self) -> int {
        spec_total_workload(self.tasks)
    }
}

/// Sum of the remaining workloads of a task sequence.
pub open spec fn spec_total_workload(tasks: Seq<TaskV>) -> int
    decreases tasks.len(),
{
    if tasks.len() == 0 {
        0
    } else {
        spec_total_workload(tasks.drop_last()) + tasks.last().workload
    }
}

/// The sum of bounded workloads is bounded by count times the bound.
pub proof fn lemma_total_workload_bound(tasks: Seq<TaskV>)
    requires
        forall|i: int| 0 <= i < tasks.len() ==> #[trigger] tasks[i].wf(),
    ensures
        0 <= spec_total_workload(tasks) <= tasks.len() * MAX_WORKLOAD,
    decreases tasks.len(),
{
    if tasks.len() > 0 {
        lemma_total_workload_bound(tasks.drop_last());
        assert(tasks.last().wf());
        assert((tasks.len() - 1) * MAX_WORKLOAD + MAX_WORKLOAD == tasks.len() * MAX_WORKLOAD)
            by (nonlinear_arith);
    }
}

/// Whether a task is worked by the team named `sot` here: the task must
/// belong to the team, and, when a station name is given, the task's
/// eligible-station set must contain it.
pub open spec fn spec_task_matches(t: TaskV, station: Option<Seq<char>>, sot: Seq<char>) -> bool {
    t.sot == sot && (station is Some ==> t.stations.contains(station->0))
}

/// The indices, in increasing order, of the tasks among the first `n` that
/// match the given team (and station, when one is given).
pub open spec fn spec_task_idxs_upto(
    tasks: Seq<TaskV>,
    station: Option<Seq<char>>,
    sot: Seq<char>,
    n: int,
) -> Seq<usize>
    decreases n,
{
    if n <= 0 {
        Seq::empty()
    } else {
        let prefix = spec_task_idxs_upto(tasks, station, sot, n - 1);
        if spec_task_matches(tasks[n - 1], station, sot) {
            prefix.push((n - 1) as usize)
        } else {
            prefix
        }
    }
}

/// The indices of all tasks matching the given team (and station).
pub open spec fn spec_task_idxs(
    tasks: Seq<TaskV>,
    station: Option<Seq<char>>,
    sot: Seq<char>,
) -> Seq<usize> {
    spec_task_idxs_upto(tasks, station, sot, tasks.len() as int)
}

/// Works the tasks selected by `idxs`, in order, against a labor budget:
/// each task takes what it needs from the budget until the budget runs out.
/// Returns the updated tasks and the budget left over. An index out of range
/// selects nothing and is passed over.
pub open spec fn spec_work_tasks(tasks: Seq<TaskV>, idxs: Seq<usize>, available: u64) -> (Seq<
    TaskV,
>, u64)
    decreases idxs.len(),
{
    if idxs.len() == 0 || available == 0 {
        (tasks, available)
    } else {
        let i = idxs[0] as int;
        if 0 <= i < tasks.len() {
            let (w2, left) = spec_consume(tasks[i].workload, available);
            let tasks2 = tasks.update(i, TaskV { workload: w2, ..tasks[i] });
            spec_work_tasks(tasks2, idxs.drop_first(), left)
        } else {
            spec_work_tasks(tasks, idxs.drop_first(), available)
        }
    }
}

/// Working tasks never changes which tasks there are, never raises a
/// workload, and never hands back more budget than it was given.
pub proof fn lemma_work_tasks_shape(tasks: Seq<TaskV>, idxs: Seq<usize>, available: u64)
    ensures
        spec_work_tasks(tasks, idxs, available).0.len() == tasks.len(),
        forall|i: int| 0 <= i < tasks.len() ==> {
            let t2 = #[trigger] spec_work_tasks(tasks, idxs, available).0[i];
            t2.workload <= tasks[i].workload
            && t2.stations == tasks[i].stations
            && t2.sot == tasks[i].sot
            && t2.version == tasks[i].version
        },
        spec_work_tasks(tasks, idxs, available).1 <= available,
    decreases idxs.len(),
{
    if idxs.len() == 0 || available == 0 {
    } else {
        let i = idxs[0] as int;
        if 0 <= i < tasks.len() {
            let (w2, left) = spec_consume(tasks[i].workload, available);
            let tasks2 = tasks.update(i, TaskV { workload: w2, ..tasks[i] });
            lemma_work_tasks_shape(tasks2, idxs.drop_first(), left);
        } else {
            lemma_work_tasks_shape(tasks, idxs.drop_first(), available);
        }
    }
}

#[derive(Debug)]
pub struct MSN {
    tasks: Vec<Task>,
    msn: u32,
    version: String,
}

impl View for MSN {
    type V = MsnV;

    closed spec fn view(&self) -> MsnV {
        MsnV {
            msn: self.msn,
            version: self.version@,
            tasks: self.tasks@.map_values(|t: Task| t@),
        }
    }
}

impl Clone for MSN {
    #[verifier::loop_isolation(false)]
    fn clone(&self) -> (r: Self)
        ensures
            r@ == self@,
    {
        let mut tasks: Vec<Task> = Vec::new();
        let mut i: usize = 0;
        while i < self.tasks.len()
            invariant
                i <= self.tasks.len(),
                tasks@.map_values(|t: Task| t@) =~= self@.tasks.take(i as int),
            decreases self.tasks.len() - i,
        {
            tasks.push(self.tasks[i].clone());
            i += 1;
            assert(tasks@.map_values(|t: Task| t@) =~= self@.tasks.take(i as int));
        }
        assert(self@.tasks.take(self.tasks.len() as int) =~= self@.tasks);
        let r = MSN { tasks, msn: self.msn, version: self.version.clone() };
        assert(r@ =~= self@);
        r
    }
}

impl MSN {
    /// Builds a work-unit by copying, in order, the tasks of the table whose
    /// variant equals `version`.
    #[verifier::loop_isolation(false)]
    pub fn new(msn: u32, version: &str, task_table: &Vec<Task>) -> (r: MSN)
        requires
            task_table@.len() <= MAX_TASKS,
        ensures
            r@.msn == msn,
            r@.version == version@,
            r@.tasks == task_table@.map_values(|t: Task| t@).filter(
                |t: TaskV| t.version == version@,
            ),
    {
        let version = version.to_owned();
        let mut tasks: Vec<Task> = Vec::new();
        let mut i: usize = 0;
        while i < task_table.len()
            invariant
                i <= task_table.len(),
                tasks@.map_values(|t: Task| t@) =~= task_table@.map_values(|t: Task| t@).take(
                    i as int,
                ).filter(|t: TaskV| t.version == version@),
            decreases task_table.len() - i,
        {
            proof {
                let full = task_table@.map_values(|t: Task| t@);
                assert(full.take(i + 1).drop_last() =~= full.take(i as int));
                reveal_with_fuel(Seq::filter, 2);
            }
            if task_table[i].has_version(&version) {
                tasks.push(task_table[i].clone());
            }
            i += 1;
            assert(tasks@.map_values(|t: Task| t@) =~= task_table@.map_values(|t: Task| t@).take(
                i as int,
            ).filter(|t: TaskV| t.version == version@));
        }
        proof {
            let full = task_table@.map_values(|t: Task| t@);
            assert(full.take(task_table@.len() as int) =~= full);
        }
        MSN { tasks, msn, version }
    }

    /// Total remaining workload across this unit's tasks.
    #[verifier::loop_isolation(false)]
    pub fn get_workload(&self) -> (r: u64)
        requires
            self@.wf(),
        ensures
            r == self@.total_workload(),
    {
        proof {
            lemma_total_workload_bound(self@.tasks);
        }
        let mut total: u64 = 0;
        let mut i: usize = 0;
        while i < self.tasks.len()
            invariant
                self@.wf(),
                i <= self@.tasks.len(),
                total == spec_total_workload(self@.tasks.take(i as int)),
                total <= i * MAX_WORKLOAD,
            decreases self.tasks.len() - i,
        {
            proof {
                assert(self@.tasks.take(i + 1).drop_last() =~= self@.tasks.take(i as int));
                assert(self@.tasks[i as int].wf());
                assert(i * MAX_WORKLOAD + MAX_WORKLOAD == (i + 1) * MAX_WORKLOAD)
                    by (nonlinear_arith);
                assert((i + 1) * MAX_WORKLOAD <= MAX_TASKS * MAX_WORKLOAD) by (nonlinear_arith)
                    requires i + 1 <= MAX_TASKS;
            }
            total = total + self.tasks[i].get_workload();
            i += 1;
        }
        proof {
            assert(self@.tasks.take(self@.tasks.len() as int) =~= self@.tasks);
        }
        total
    }

    /// The indices of the tasks that the team named `sot_name` may work at
    /// the station named `station`: the task must belong to that team and
    /// name that station among its eligible stations.
    pub fn get_tasks(&self, station: &String, sot_name: &String) -> (r: Vec<usize>)
        ensures
            r@ == spec_task_idxs(self@.tasks, Some(station@), sot_name@),
    {
        self.task_idxs(Some(station), sot_name)
    }

    /// The indices of all tasks belonging to the team named `sot_name`,
    /// regardless of station eligibility.
    pub fn get_sot_tasks(&self, sot_name: &String) -> (r: Vec<usize>)
        ensures
            r@ == spec_task_idxs(self@.tasks, None, sot_name@),
    {
        self.task_idxs(None, sot_name)
    }

    #[verifier::loop_isolation(false)]
    fn task_idxs(&self, station: Option<&String>, sot_name: &String) -> (r: Vec<usize>)
        ensures
            r@ == spec_task_idxs(
                self@.tasks,
                match station {
                    Some(s) => Some(s@),
                    None => None,
                },
                sot_name@,
            ),
    {
        let ghost st: Option<Seq<char>> = match station {
            Some(s) => Some(s@),
            None => None,
        };
        let mut r: Vec<usize> = Vec::new();
        let mut i: usize = 0;
        while i < self.tasks.len()
            invariant
                i <= self.tasks.len(),
                r@ == spec_task_idxs_upto(self@.tasks, st, sot_name@, i as int),
                st == (match station {
                    Some(s) => Some(s@),
                    None => None,
                }),
            decreases self.tasks.len() - i,
        {
            let matches = match station {
                Some(s) => self.tasks[i].owned_by(sot_name) && self.tasks[i].eligible_at(s),
                None => self.tasks[i].owned_by(sot_name),
            };
            if matches {
                r.push(i);
            }
            i += 1;
        }
        r
    }

    /// Burns labor against the task at index `ti`; see
    /// [`Task::work_and_get_remaining_time`].
    pub fn work_task(&mut self, ti: usize, available: u64) -> (r: u64)
        requires
            ti < old(self)@.tasks.len(),
        ensures
            final(self)@ == (MsnV {
                tasks: old(self)@.tasks.update(
                    ti as int,
                    TaskV {
                        workload: spec_consume(old(self)@.tasks[ti as int].workload, available).0,
                        ..old(self)@.tasks[ti as int]
                    },
                ),
                ..old(self)@
            }),
            r == spec_consume(old(self)@.tasks[ti as int].workload, available).1,
    {
        let t = &mut self.tasks[ti];
        let r = t.work_and_get_remaining_time(available);
        proof {
            assert(final(self)@.tasks =~= old(self)@.tasks.update(
                ti as int,
                TaskV {
                    workload: spec_consume(old(self)@.tasks[ti as int].workload, available).0,
                    ..old(self)@.tasks[ti as int]
                },
            ));
        }
        r
    }

    /// Works the tasks selected by `idxs`, in order, against `available`
    /// labor units, until the indices or the budget run out; hands back the
    /// leftover budget. Indices out of range select nothing.
    #[verifier::loop_isolation(false)]
    pub fn work_tasks(&mut self, idxs: &Vec<usize>, available: u64) -> (r: u64)
        ensures
            final(self)@ == (MsnV {
                tasks: spec_work_tasks(old(self)@.tasks, idxs@, available).0,
                ..old(self)@
            }),
            r == spec_work_tasks(old(self)@.tasks, idxs@, available).1,
    {
        let mut avail = available;
        let mut k: usize = 0;
        proof {
            assert(idxs@.skip(0) =~= idxs@);
        }
        while k < idxs.len() && avail > 0
            invariant
                k <= idxs@.len(),
                self@.msn == old(self)@.msn,
                self@.version == old(self)@.version,
                spec_work_tasks(old(self)@.tasks, idxs@, available)
                    == spec_work_tasks(self@.tasks, idxs@.skip(k as int), avail),
            decreases idxs@.len() - k,
        {
            proof {
                assert(idxs@.skip(k as int)[0] == idxs@[k as int]);
                assert(idxs@.skip(k as int).drop_first() =~= idxs@.skip(k + 1));
            }
            let ti = idxs[k];
            if ti < self.tasks.len() {
                avail = self.work_task(ti, avail);
            }
            k += 1;
        }
        proof {
            if k < idxs@.len() {
                assert(avail == 0);
                assert(spec_work_tasks(self@.tasks, idxs@.skip(k as int), avail)
                    == (self@.tasks, avail));
            } else {
                assert(idxs@.skip(k as int) =~= Seq::<usize>::empty());
            }
            assert(final(self)@.tasks =~= spec_work_tasks(old(self)@.tasks, idxs@, available).0);
        }
        avail
    }

    /// How many tasks this unit owns.
    pub fn task_count(&self) -> (r: usize)
        ensures
            r == self@.tasks.len(),
    {
        self.tasks.len()
    }
}

} // verus!
