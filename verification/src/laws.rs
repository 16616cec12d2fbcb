//! The line's guarantees, stated and proved once over the mathematical
//! model: conservation of units, the workload floor, single occupancy,
//! advance correctness, the utilization bound, and determinism.
use vstd::prelude::*;
use crate::hangar::{HangarV, spec_tick, spec_teams_pass, spec_advance, spec_unit_count,
    line_same_shape, station_same_shape, lemma_teams_pass_shape, lemma_unit_count_same_shape,
    lemma_unit_count_advance, lemma_unit_count_update, lemma_same_shape_wf, spec_util_entries};
use crate::msn::{MsnV, spec_work_tasks, lemma_work_tasks_shape};
use crate::task::TaskV;
use crate::sim::{spec_insert, spec_run};
use crate::station::StationV;

verus! {

/// What one tick does to the line, all at once: the state stays well formed,
/// no unit appears or disappears but the one that exits, and the team phase
/// only lowers workloads.
pub proof fn lemma_tick_effects(h: HangarV)
    requires
        h.wf(),
        h.stations.len() >= 1,
    ensures
        spec_tick(h).wf(),
        spec_tick(h).stations.len() == h.stations.len(),
        spec_tick(h).inserted == h.inserted,
        spec_tick(h).exited == h.exited + h.stations.last().unit_count(),
        line_same_shape(
            h.stations,
            spec_teams_pass(h.stations, h.sots, h.tact_time, h.sots.len() as int).0,
        ),
        spec_tick(h).stations == spec_advance(
            spec_teams_pass(h.stations, h.sots, h.tact_time, h.sots.len() as int).0,
        ),
{
    let (st1, sots1) = spec_teams_pass(h.stations, h.sots, h.tact_time, h.sots.len() as int);
    lemma_teams_pass_shape(h.stations, h.sots, h.tact_time, h.sots.len() as int);
    lemma_unit_count_same_shape(h.stations, st1);
    lemma_unit_count_advance(st1);
    lemma_same_shape_wf(h.stations, st1);
    assert forall|i: int| 0 <= i < spec_tick(h).stations.len() implies (
    #[trigger] spec_tick(h).stations[i]).wf() by {
        if i > 0 {
            assert(st1[i - 1].wf());
        } else {
            assert(st1[0].wf());
        }
    }
}

/// Law (conservation): in a well-formed line the units inserted so far equal
/// the units exited plus the units still standing in the line, and a tick
/// keeps it so — it discards exactly the exit station's unit and counts that
/// unit as exited.
pub proof fn lemma_tick_conservation(h: HangarV)
    requires
        h.wf(),
        h.stations.len() >= 1,
    ensures
        h.inserted == h.exited + spec_unit_count(h.stations),
        spec_tick(h).inserted == spec_tick(h).exited + spec_unit_count(spec_tick(h).stations),
        spec_tick(h).inserted == h.inserted,
        spec_tick(h).exited == h.exited + h.stations.last().unit_count(),
{
    lemma_tick_effects(h);
}

/// Law (conservation under insertion): placing a unit on the empty entry
/// station raises the inserted count and the in-line count by one each.
pub proof fn lemma_insert_conservation(h: HangarV, m: MsnV)
    requires
        h.wf(),
        h.stations.len() >= 1,
        h.stations[0].msn is None,
        m.wf(),
    ensures
        spec_insert(h, m).wf(),
        spec_insert(h, m).inserted == h.inserted + 1,
        spec_unit_count(spec_insert(h, m).stations) == spec_unit_count(h.stations) + 1,
{
    lemma_unit_count_update(h.stations, 0, StationV { msn: Some(m), ..h.stations[0] });
}

/// Law (workload floor): however much labor is thrown at a task list — any
/// index order, any budget — every workload stays at or above zero and never
/// grows.
pub proof fn lemma_workload_floor(tasks: Seq<TaskV>, idxs: Seq<usize>, available: u64)
    ensures
        forall|i: int| 0 <= i < tasks.len() ==> {
            let w2 = (#[trigger] spec_work_tasks(tasks, idxs, available).0[i]).workload;
            0 <= w2 <= tasks[i].workload
        },
{
    lemma_work_tasks_shape(tasks, idxs, available);
}

/// Law (single occupancy): a station holds at most one work-unit.
pub proof fn lemma_single_occupancy(st: StationV)
    ensures
        0 <= st.unit_count() <= 1,
{
}

/// Distinct identities: no two occupied stations hold units of the same
/// serial.
pub open spec fn spec_units_distinct(stations: Seq<StationV>) -> bool {
    forall|i: int, j: int|
        0 <= i < j < stations.len() && stations[i].msn is Some && stations[j].msn is Some
            ==> (#[trigger] stations[i].msn)->0.msn != (#[trigger] stations[j].msn)->0.msn
}

/// Law (no duplication): a tick never copies a unit — if the stations held
/// pairwise distinct units before, they do after.
pub proof fn lemma_tick_no_duplication(h: HangarV)
    requires
        h.wf(),
        h.stations.len() >= 1,
        spec_units_distinct(h.stations),
    ensures
        spec_units_distinct(spec_tick(h).stations),
{
    lemma_tick_effects(h);
    let st1 = spec_teams_pass(h.stations, h.sots, h.tact_time, h.sots.len() as int).0;
    let st2 = spec_tick(h).stations;
    assert forall|i: int, j: int|
        0 <= i < j < st2.len() && st2[i].msn is Some && st2[j].msn is Some implies (
    #[trigger] st2[i].msn)->0.msn != (#[trigger] st2[j].msn)->0.msn by {
        assert(i >= 1);
        assert(st2[i].msn == st1[i - 1].msn);
        assert(st2[j].msn == st1[j - 1].msn);
        assert(station_same_shape(h.stations[i - 1], st1[i - 1]));
        assert(station_same_shape(h.stations[j - 1], st1[j - 1]));
    }
}

/// Law (advance correctness): after a tick, each station holds exactly the
/// unit that stood one station upstream — same serial, same variant — the
/// entry station is empty, and the unit that stood at the exit station is
/// gone from the line.
pub proof fn lemma_advance_correctness(h: HangarV)
    requires
        h.wf(),
        h.stations.len() >= 1,
    ensures
        spec_tick(h).stations.len() == h.stations.len(),
        spec_tick(h).stations[0].msn is None,
        forall|i: int| 1 <= i < h.stations.len() ==> {
            &&& ((#[trigger] spec_tick(h).stations[i]).msn is Some <==> h.stations[i - 1].msn
                is Some)
            &&& (h.stations[i - 1].msn is Some ==> {
                &&& spec_tick(h).stations[i].msn->0.msn == h.stations[i - 1].msn->0.msn
                &&& spec_tick(h).stations[i].msn->0.version == h.stations[i - 1].msn->0.version
            })
        },
{
    lemma_tick_effects(h);
    let st1 = spec_teams_pass(h.stations, h.sots, h.tact_time, h.sots.len() as int).0;
    assert forall|i: int| 1 <= i < h.stations.len() implies {
        &&& ((#[trigger] spec_tick(h).stations[i]).msn is Some <==> h.stations[i - 1].msn
            is Some)
        &&& (h.stations[i - 1].msn is Some ==> {
            &&& spec_tick(h).stations[i].msn->0.msn == h.stations[i - 1].msn->0.msn
            &&& spec_tick(h).stations[i].msn->0.version == h.stations[i - 1].msn->0.version
        })
    } by {
        assert(spec_tick(h).stations[i].msn == st1[i - 1].msn);
        assert(station_same_shape(h.stations[i - 1], st1[i - 1]));
    }
}

/// Law (utilization bound): every utilization record of a well-formed team
/// spends no more than its budget and its budget is positive, so the recorded
/// ratio lies in [0, 1]; and a tick appends exactly one such record to every
/// team.
pub proof fn lemma_utilization_bound(h: HangarV, t: int, k: int)
    requires
        h.wf(),
        0 <= t < h.sots.len(),
        0 <= k < h.sots[t].utilization.len(),
    ensures
        0 <= h.sots[t].utilization[k].0 <= h.sots[t].utilization[k].1,
        h.sots[t].utilization[k].1 >= 1,
        h.stations.len() >= 1 ==> {
            &&& spec_tick(h).sots[t].utilization.len() == h.sots[t].utilization.len() + 1
            &&& spec_tick(h).sots[t].wf()
        },
{
    assert(h.sots[t].wf());
    if h.stations.len() >= 1 {
        lemma_teams_pass_shape(h.stations, h.sots, h.tact_time, h.sots.len() as int);
    }
}

/// Law (determinism): one tick, one insertion, and a whole run are pure
/// functions of the line's mathematical value, so replaying an identical
/// sequence of inserts and ticks from an equal initial configuration gives
/// equal overflow and utilization histories. The executable operations are
/// pinned to these functions by their contracts: `Hangar::tact` ensures its
/// final value is `spec_tick` of the old one, and `SIM::run` ensures
/// `spec_run` of the starting state.
pub proof fn lemma_replay_deterministic(
    h1: HangarV,
    h2: HangarV,
    msns1: Seq<MsnV>,
    msns2: Seq<MsnV>,
)
    requires
        h1 == h2,
        msns1 == msns2,
    ensures
        spec_run(h1, msns1) == spec_run(h2, msns2),
        spec_run(h1, msns1).osw == spec_run(h2, msns2).osw,
        spec_util_entries(spec_run(h1, msns1).sots) == spec_util_entries(
            spec_run(h2, msns2).sots,
        ),
{
}

} // verus!
