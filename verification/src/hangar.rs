//! The line (hangar): the ordered stations, the teams, and the tick
//! algorithm — team work allocation, overflow burn, spill recording and
//! pipeline advance.
use vstd::prelude::*;
use crate::msn::{MSN, spec_total_workload, lemma_total_workload_bound, lemma_work_tasks_shape};
use crate::sot::{SOT, SotV};
use crate::station::{Station, StationV, spec_station_work, spec_station_primary_idxs,
    spec_station_team_idxs};
use crate::{MAX_TACT, CVAT_ONE};

verus! {

/// The mathematical values of a station sequence.
pub open spec fn station_views(v: Seq<Station>) -> Seq<StationV> {
    v.map_values(|s: Station| s@)
}

/// Updating one station of a vector updates one value of its view.
pub broadcast proof fn lemma_station_views_update(v: Seq<Station>, i: int, st: Station)
    requires
        0 <= i < v.len(),
    ensures
        #[trigger] station_views(v.update(i, st)) == station_views(v).update(i, st@),
{
    assert(station_views(v.update(i, st)) =~= station_views(v).update(i, st@));
}

/// The mathematical values of a team sequence.
pub open spec fn sot_views(v: Seq<SOT>) -> Seq<SotV> {
    v.map_values(|s: SOT| s@)
}

/// How many work-units the line currently holds.
pub open spec fn spec_unit_count(stations: Seq<StationV>) -> int
    decreases stations.len(),
{
    if stations.len() == 0 {
        0
    } else {
        spec_unit_count(stations.drop_last()) + stations.last().unit_count()
    }
}

/// Whether some station of the line carries the given name.
pub open spec fn spec_has_station(stations: Seq<StationV>, name: Seq<char>) -> bool {
    exists|i: int| 0 <= i < stations.len() && (#[trigger] stations[i]).name == name
}

/// The first station carrying the given name, or -1 when there is none.
pub open spec fn spec_station_index(stations: Seq<StationV>, name: Seq<char>) -> int
    decreases stations.len(),
{
    if stations.len() == 0 {
        -1
    } else if stations[0].name == name {
        0
    } else {
        let r = spec_station_index(stations.drop_first(), name);
        if r < 0 {
            -1
        } else {
            r + 1
        }
    }
}

/// The primary pass of one team over the line: stations are visited from the
/// exit end (index `k - 1`) toward the entry end (index 0); at each, the
/// team's eligible tasks are worked in unit order against the running budget.
pub open spec fn spec_primary_pass(
    stations: Seq<StationV>,
    sot_name: Seq<char>,
    available: u64,
    k: int,
) -> (Seq<StationV>, u64)
    decreases k,
{
    if k <= 0 {
        (stations, available)
    } else {
        let idxs = spec_station_primary_idxs(stations[k - 1], sot_name);
        let (st2, left) = spec_station_work(stations[k - 1], idxs, available);
        spec_primary_pass(stations.update(k - 1, st2), sot_name, left, k - 1)
    }
}

/// The overflow pass of one team: its assigned stations are visited in their
/// configured order; at each, all of the team's tasks on the unit there are
/// worked against the leftover budget, until the budget runs out. A name that
/// matches no station selects nothing.
pub open spec fn spec_osw_pass(
    stations: Seq<StationV>,
    names: Seq<Seq<char>>,
    sot_name: Seq<char>,
    available: u64,
) -> (Seq<StationV>, u64)
    decreases names.len(),
{
    if names.len() == 0 || available == 0 {
        (stations, available)
    } else {
        let j = spec_station_index(stations, names[0]);
        if 0 <= j < stations.len() {
            let idxs = spec_station_team_idxs(stations[j], sot_name);
            let (st2, left) = spec_station_work(stations[j], idxs, available);
            spec_osw_pass(stations.update(j, st2), names.drop_first(), sot_name, left)
        } else {
            spec_osw_pass(stations, names.drop_first(), sot_name, available)
        }
    }
}

/// One team's whole share of a tick: the primary pass over the full line with
/// a fresh budget, the overflow pass over its assigned stations with whatever
/// is left, and one exact utilization record (labor spent, budget).
pub open spec fn spec_tick_team(stations: Seq<StationV>, sot: SotV, tact_time: u64) -> (Seq<
    StationV,
>, SotV) {
    let b = sot.budget(tact_time) as u64;
    let (st1, a1) = spec_primary_pass(stations, sot.name, b, stations.len() as int);
    let (st2, a2) = spec_osw_pass(st1, sot.stations, sot.name, a1);
    (st2, SotV { utilization: sot.utilization.push((((b - a2) as u64), b)), ..sot })
}

/// All teams' share of a tick, in team order: the first `k` teams have
/// worked. Task ownership partitions by team, so this order does not affect
/// the per-team outcomes; it is fixed here all the same.
pub open spec fn spec_teams_pass(
    stations: Seq<StationV>,
    sots: Seq<SotV>,
    tact_time: u64,
    k: int,
) -> (Seq<StationV>, Seq<SotV>)
    decreases k,
{
    if k <= 0 {
        (stations, sots)
    } else {
        let (st1, sots1) = spec_teams_pass(stations, sots, tact_time, k - 1);
        let (st2, s2) = spec_tick_team(st1, sots1[k - 1], tact_time);
        (st2, sots1.update(k - 1, s2))
    }
}

/// The pipeline advance: every unit moves exactly one station toward the
/// exit, the entry station becomes empty, and the unit of the last station is
/// gone.
pub open spec fn spec_advance(stations: Seq<StationV>) -> Seq<StationV> {
    Seq::new(
        stations.len(),
        |i: int|
            if i == 0 {
                StationV { msn: None, ..stations[0] }
            } else {
                StationV { msn: stations[i - 1].msn, ..stations[i] }
            },
    )
}

/// Station `b` is station `a` after some work: same name, same occupancy,
/// same unit identity and task composition; only task workloads may have
/// gone down.
pub open spec fn station_same_shape(a: StationV, b: StationV) -> bool {
    &&& b.name == a.name
    &&& (b.msn is Some <==> a.msn is Some)
    &&& (a.msn is Some ==> {
        let am = a.msn->0;
        let bm = b.msn->0;
        &&& bm.msn == am.msn
        &&& bm.version == am.version
        &&& bm.tasks.len() == am.tasks.len()
        &&& forall|i: int| 0 <= i < am.tasks.len() ==> {
            &&& (#[trigger] bm.tasks[i]).workload <= am.tasks[i].workload
            &&& bm.tasks[i].stations == am.tasks[i].stations
            &&& bm.tasks[i].sot == am.tasks[i].sot
            &&& bm.tasks[i].version == am.tasks[i].version
        }
    })
}

/// Line `b` is line `a` after some work: stations agree pairwise as in
/// [`station_same_shape`].
pub open spec fn line_same_shape(a: Seq<StationV>, b: Seq<StationV>) -> bool {
    &&& b.len() == a.len()
    &&& forall|i: int| 0 <= i < a.len() ==> station_same_shape(a[i], #[trigger] b[i])
}

pub proof fn lemma_same_shape_trans(a: Seq<StationV>, b: Seq<StationV>, c: Seq<StationV>)
    requires
        line_same_shape(a, b),
        line_same_shape(b, c),
    ensures
        line_same_shape(a, c),
{
}

/// Working one station keeps its shape and never hands back more budget than
/// it was given.
pub proof fn lemma_station_work_shape(st: StationV, idxs: Seq<usize>, available: u64)
    ensures
        station_same_shape(st, spec_station_work(st, idxs, available).0),
        spec_station_work(st, idxs, available).1 <= available,
{
    match st.msn {
        None => {},
        Some(m) => {
            lemma_work_tasks_shape(m.tasks, idxs, available);
        },
    }
}

/// The primary pass keeps the line's shape and never hands back more budget
/// than it was given.
pub proof fn lemma_primary_pass_shape(
    stations: Seq<StationV>,
    sot_name: Seq<char>,
    available: u64,
    k: int,
)
    requires
        k <= stations.len(),
    ensures
        line_same_shape(stations, spec_primary_pass(stations, sot_name, available, k).0),
        spec_primary_pass(stations, sot_name, available, k).1 <= available,
    decreases k,
{
    if k <= 0 {
    } else {
        let idxs = spec_station_primary_idxs(stations[k - 1], sot_name);
        let (st2, left) = spec_station_work(stations[k - 1], idxs, available);
        lemma_station_work_shape(stations[k - 1], idxs, available);
        lemma_primary_pass_shape(stations.update(k - 1, st2), sot_name, left, k - 1);
    }
}

/// The overflow pass keeps the line's shape and never hands back more budget
/// than it was given.
pub proof fn lemma_osw_pass_shape(
    stations: Seq<StationV>,
    names: Seq<Seq<char>>,
    sot_name: Seq<char>,
    available: u64,
)
    ensures
        line_same_shape(stations, spec_osw_pass(stations, names, sot_name, available).0),
        spec_osw_pass(stations, names, sot_name, available).1 <= available,
    decreases names.len(),
{
    if names.len() == 0 || available == 0 {
    } else {
        let j = spec_station_index(stations, names[0]);
        if 0 <= j < stations.len() {
            let idxs = spec_station_team_idxs(stations[j], sot_name);
            let (st2, left) = spec_station_work(stations[j], idxs, available);
            lemma_station_work_shape(stations[j], idxs, available);
            lemma_osw_pass_shape(stations.update(j, st2), names.drop_first(), sot_name, left);
        } else {
            lemma_osw_pass_shape(stations, names.drop_first(), sot_name, available);
        }
    }
}

/// One team's tick keeps the line's shape, keeps the team's identity and
/// configuration, and appends exactly one well-formed utilization record.
pub proof fn lemma_tick_team_shape(stations: Seq<StationV>, sot: SotV, tact_time: u64)
    requires
        sot.wf(),
        1 <= tact_time <= MAX_TACT,
    ensures
        line_same_shape(stations, spec_tick_team(stations, sot, tact_time).0),
        spec_tick_team(stations, sot, tact_time).1.wf(),
        ({
            let s2 = spec_tick_team(stations, sot, tact_time).1;
            &&& s2.name == sot.name
            &&& s2.stations == sot.stations
            &&& s2.workers == sot.workers
            &&& s2.cvat == sot.cvat
            &&& s2.utilization.len() == sot.utilization.len() + 1
            &&& s2.utilization.take(sot.utilization.len() as int) == sot.utilization
        }),
{
    sot.lemma_capacity_bounds();
    assert(sot.capacity() * tact_time <= 0xFFFF * CVAT_ONE * MAX_TACT) by (nonlinear_arith)
        requires
            1 <= sot.capacity() <= 0xFFFF * CVAT_ONE,
            1 <= tact_time <= MAX_TACT,
    ;
    assert(sot.capacity() * tact_time >= 1) by (nonlinear_arith)
        requires
            sot.capacity() >= 1,
            tact_time >= 1,
    ;
    let b = sot.budget(tact_time) as u64;
    let (st1, a1) = spec_primary_pass(stations, sot.name, b, stations.len() as int);
    lemma_primary_pass_shape(stations, sot.name, b, stations.len() as int);
    lemma_osw_pass_shape(st1, sot.stations, sot.name, a1);
    let s2 = spec_tick_team(stations, sot, tact_time).1;
    assert(s2.utilization.take(sot.utilization.len() as int) =~= sot.utilization);
}

/// The whole team phase keeps the line's shape; each team ends well formed
/// with one new utilization record and its configuration unchanged.
pub proof fn lemma_teams_pass_shape(
    stations: Seq<StationV>,
    sots: Seq<SotV>,
    tact_time: u64,
    k: int,
)
    requires
        k <= sots.len(),
        1 <= tact_time <= MAX_TACT,
        forall|i: int| 0 <= i < sots.len() ==> (#[trigger] sots[i]).wf(),
    ensures
        line_same_shape(stations, spec_teams_pass(stations, sots, tact_time, k).0),
        spec_teams_pass(stations, sots, tact_time, k).1.len() == sots.len(),
        forall|i: int| 0 <= i < sots.len() ==> {
            let s2 = #[trigger] spec_teams_pass(stations, sots, tact_time, k).1[i];
            &&& s2.wf()
            &&& s2.name == sots[i].name
            &&& s2.stations == sots[i].stations
            &&& s2.workers == sots[i].workers
            &&& s2.cvat == sots[i].cvat
            &&& (i < k ==> s2.utilization.len() == sots[i].utilization.len() + 1
                && s2.utilization.take(sots[i].utilization.len() as int) == sots[i].utilization)
            &&& (i >= k ==> s2 == sots[i])
        },
    decreases k,
{
    if k <= 0 {
    } else {
        let (st1, sots1) = spec_teams_pass(stations, sots, tact_time, k - 1);
        lemma_teams_pass_shape(stations, sots, tact_time, k - 1);
        lemma_tick_team_shape(st1, sots1[k - 1], tact_time);
        let (st2, s2) = spec_tick_team(st1, sots1[k - 1], tact_time);
        lemma_same_shape_trans(stations, st1, st2);
    }
}

/// Equal shapes have equal unit counts.
pub proof fn lemma_unit_count_same_shape(a: Seq<StationV>, b: Seq<StationV>)
    requires
        line_same_shape(a, b),
    ensures
        spec_unit_count(b) == spec_unit_count(a),
    decreases a.len(),
{
    if a.len() > 0 {
        assert(line_same_shape(a.drop_last(), b.drop_last()));
        lemma_unit_count_same_shape(a.drop_last(), b.drop_last());
    }
}

/// Updating one station changes the unit count by that station's difference.
pub proof fn lemma_unit_count_update(stations: Seq<StationV>, i: int, st: StationV)
    requires
        0 <= i < stations.len(),
    ensures
        spec_unit_count(stations.update(i, st)) == spec_unit_count(stations)
            - stations[i].unit_count() + st.unit_count(),
    decreases stations.len(),
{
    if stations.len() > 0 {
        if i == stations.len() - 1 {
            assert(stations.update(i, st).drop_last() =~= stations.drop_last());
        } else {
            assert(stations.update(i, st).drop_last() =~= stations.drop_last().update(i, st));
            lemma_unit_count_update(stations.drop_last(), i, st);
        }
    }
}

/// The advance discards exactly the unit of the last station: the count drops
/// by that station's occupancy.
pub proof fn lemma_unit_count_advance(stations: Seq<StationV>)
    requires
        stations.len() >= 1,
    ensures
        spec_unit_count(spec_advance(stations)) == spec_unit_count(stations)
            - stations.last().unit_count(),
    decreases stations.len(),
{
    let adv = spec_advance(stations);
    assert(adv.len() == stations.len());
    assert(spec_unit_count(adv) == spec_unit_count(adv.drop_last()) + adv.last().unit_count());
    assert(spec_unit_count(stations) == spec_unit_count(stations.drop_last())
        + stations.last().unit_count());
    if stations.len() == 1 {
        assert(adv.drop_last() =~= Seq::<StationV>::empty());
        assert(adv.last() == adv[0]);
        assert(adv[0].unit_count() == 0);
        assert(spec_unit_count(adv.drop_last()) == 0);
    } else {
        assert(adv.drop_last() =~= spec_advance(stations.drop_last()));
        lemma_unit_count_advance(stations.drop_last());
        assert(adv.last() == adv[stations.len() - 1]);
        assert(adv.last().unit_count() == stations[stations.len() - 2].unit_count());
        assert(stations.drop_last().last() == stations[stations.len() - 2]);
    }
}

/// The mathematical value of a [`Hangar`]: the full simulation state, plus
/// the two ghost counters that carry the conservation argument.
pub ghost struct HangarV {
    pub hangar: Seq<char>,
    pub stations: Seq<StationV>,
    pub tact_time: u64,
    pub sots: Seq<SotV>,
    pub osw: Seq<u64>,
    pub inserted: int,
    pub exited: int,
}

impl HangarV {
    /// The line is well formed: tick duration in range, every station and
    /// team well formed, and conservation — the units inserted so far equal
    /// the units exited plus the units still in the line.
    pub open spec fn wf(self) -> bool {
        &&& 1 <= self.tact_time <= MAX_TACT
        &&& forall|i: int| 0 <= i < self.stations.len() ==> (#[trigger] self.stations[i]).wf()
        &&& forall|i: int| 0 <= i < self.sots.len() ==> (#[trigger] self.sots[i]).wf()
        &&& self.exited >= 0
        &&& self.inserted == self.exited + spec_unit_count(self.stations)
    }

    /// Every station a team is assigned to exists in the line. A name that
    /// does not is a fatal configuration error, checked when the teams are
    /// loaded.
    pub open spec fn sots_valid(self) -> bool {
        spec_assignments_exist(self.stations, self.sots)
    }
}

/// One full tick of the line, strictly ordered: every team works (primary
/// pass, then overflow burn), the exit station's residual workload is
/// recorded, and all units advance one station.
pub open spec fn spec_tick(h: HangarV) -> HangarV {
    let (st1, sots1) = spec_teams_pass(h.stations, h.sots, h.tact_time, h.sots.len() as int);
    let last = st1[st1.len() - 1];
    let osw1 = match last.msn {
        Some(m) => h.osw.push(spec_total_workload(m.tasks) as u64),
        None => h.osw,
    };
    HangarV {
        stations: spec_advance(st1),
        sots: sots1,
        osw: osw1,
        exited: h.exited + last.unit_count(),
        ..h
    }
}

pub struct Hangar {
    hangar: String,
    stations: Vec<Station>,
    tact_time: u64,
    sot: Vec<SOT>,
    osw: Vec<u64>,
    inserted: Ghost<int>,
    exited: Ghost<int>,
}

impl View for Hangar {
    type V = HangarV;

    closed spec fn view(&self) -> HangarV {
        HangarV {
            hangar: self.hangar@,
            stations: station_views(self.stations@),
            tact_time: self.tact_time,
            sots: sot_views(self.sot@),
            osw: self.osw@,
            inserted: self.inserted@,
            exited: self.exited@,
        }
    }
}

impl Hangar {
    /// A fresh, empty line with the given tick duration.
    pub fn new(hangar: &str, tact_time: u64) -> (h: Hangar)
        requires
            1 <= tact_time <= MAX_TACT,
        ensures
            h@ == (HangarV {
                hangar: hangar@,
                stations: Seq::empty(),
                tact_time,
                sots: Seq::empty(),
                osw: Seq::empty(),
                inserted: 0int,
                exited: 0int,
            }),
            h@.wf(),
    {
        let h = Hangar {
            hangar: hangar.to_owned(),
            stations: Vec::new(),
            tact_time,
            sot: Vec::new(),
            osw: Vec::new(),
            inserted: Ghost(0int),
            exited: Ghost(0int),
        };
        proof {
            assert(h@.stations =~= Seq::<StationV>::empty());
            assert(h@.sots =~= Seq::<SotV>::empty());
        }
        h
    }

    /// The first station of the given name, or nothing when no station
    /// carries it.
    pub fn get_station(&self, station_name: &str) -> (r: Option<&Station>)
        ensures
            ({
                let j = spec_station_index(self@.stations, station_name@);
                match r {
                    Some(st) => 0 <= j < self@.stations.len() && st@ == self@.stations[j],
                    None => j == -1,
                }
            }),
    {
        let name = station_name.to_owned();
        match station_index_of(&self.stations, &name) {
            Some(j) => Some(&self.stations[j]),
            None => None,
        }
    }

    /// The first station of the given name, open for mutation, or nothing
    /// when no station carries it. What the caller does through the reference
    /// shows up in the line's value; the conservation ledger is not adjusted,
    /// so occupancy must be left as found for the line to stay well formed.
    pub fn get_station_mut(&mut self, station_name: &str) -> (r: Option<&mut Station>)
        ensures
            ({
                let j = spec_station_index(old(self)@.stations, station_name@);
                match r {
                    Some(st) => {
                        &&& 0 <= j < old(self)@.stations.len()
                        &&& (*st)@ == old(self)@.stations[j]
                        &&& final(self)@ == (HangarV {
                            stations: old(self)@.stations.update(j, (*final(st))@),
                            ..old(self)@
                        })
                    },
                    None => j == -1 && final(self)@ == old(self)@,
                }
            }),
    {
        broadcast use lemma_station_views_update;

        let name = station_name.to_owned();
        match station_index_of(&self.stations, &name) {
            Some(j) => Some(&mut self.stations[j]),
            None => None,
        }
    }

    /// The last station of the line.
    pub fn get_last_station(&self) -> (r: &Station)
        requires
            self@.stations.len() >= 1,
        ensures
            r@ == self@.stations.last(),
    {
        let length = self.stations.len();
        &self.stations[length - 1]
    }

    pub fn get_all_stations(&self) -> (r: &Vec<Station>)
        ensures
            station_views(r@) == self@.stations,
    {
        &self.stations
    }

    /// Appends a station, unless one of the same name already exists.
    pub fn add_station(&mut self, station: Station) -> (r: Result<(), String>)
        ensures
            ({
                let dup = spec_has_station(old(self)@.stations, station@.name);
                match r {
                    Ok(()) => !dup && final(self)@ == (HangarV {
                        stations: old(self)@.stations.push(station@),
                        inserted: old(self)@.inserted + station@.unit_count(),
                        ..old(self)@
                    }),
                    Err(_) => dup && final(self)@ == old(self)@,
                }
            }),
    {
        let name = station.get_name().to_owned();
        if station_index_of(&self.stations, &name).is_some() {
            proof {
                let j = spec_station_index(self@.stations, station@.name);
                assert(spec_has_station(self@.stations, self@.stations[j].name));
            }
            return Err("Station already exists.".to_owned());
        }
        proof {
            lemma_station_index_none(self@.stations, station@.name);
        }
        proof {
            lemma_unit_count_push(self@.stations, station@);
        }
        self.stations.push(station);
        self.inserted = Ghost(self.inserted@ + station@.unit_count());
        proof {
            assert(final(self)@.stations =~= old(self)@.stations.push(station@));
        }
        Ok(())
    }

    /// Replaces the whole station list. The conservation ledger restarts:
    /// units already on the new stations count as inserted.
    pub fn set_stations(&mut self, stations: Vec<Station>)
        ensures
            final(self)@ == (HangarV {
                stations: station_views(stations@),
                inserted: old(self)@.exited + spec_unit_count(station_views(stations@)),
                ..old(self)@
            }),
    {
        self.stations = stations;
        proof {
            lemma_unit_count_nonneg(self@.stations);
        }
        self.inserted = Ghost(self.exited@ + spec_unit_count(station_views(self.stations@)));
    }

    /// Replaces the whole team list.
    pub fn set_sot(&mut self, sot: Vec<SOT>)
        ensures
            final(self)@ == (HangarV { sots: sot_views(sot@), ..old(self)@ }),
    {
        self.sot = sot;
    }

    pub fn get_number_of_stations(&self) -> (r: usize)
        ensures
            r == self@.stations.len(),
    {
        self.stations.len()
    }

    /// Places a new work-unit on the entry station. The entry station must be
    /// empty: inserting onto an occupied station would destroy a unit, so it
    /// is a checked precondition.
    pub fn insert_msn(&mut self, msn: MSN)
        requires
            old(self)@.stations.len() >= 1,
            old(self)@.stations[0].msn is None,
            msn@.wf(),
        ensures
            final(self)@ == (HangarV {
                stations: old(self)@.stations.update(
                    0,
                    StationV { msn: Some(msn@), ..old(self)@.stations[0] },
                ),
                inserted: old(self)@.inserted + 1,
                ..old(self)@
            }),
            old(self)@.wf() ==> final(self)@.wf(),
            old(self)@.sots_valid() ==> final(self)@.sots_valid(),
    {
        proof {
            if old(self)@.sots_valid() {
                lemma_names_preserved_valid(
                    old(self)@,
                    old(self)@.stations.update(
                        0,
                        StationV { msn: Some(msn@), ..old(self)@.stations[0] },
                    ),
                );
            }
        }
        let first_station = &mut self.stations[0];
        first_station.set_current_msn(msn);
        proof {
            lemma_unit_count_update(
                old(self)@.stations,
                0,
                StationV { msn: Some(msn@), ..old(self)@.stations[0] },
            );
            assert(station_views(self.stations@) =~= old(self)@.stations.update(
                0,
                StationV { msn: Some(msn@), ..old(self)@.stations[0] },
            ));
        }
        self.inserted = Ghost(self.inserted@ + 1);
    }

    /// Records the residual workload of the unit at the exit station, just
    /// before that unit leaves the line; an empty exit station records
    /// nothing.
    fn calculate_osw(&mut self, len: usize)
        requires
            len == old(self)@.stations.len(),
            len >= 1,
            old(self)@.stations.last().wf(),
        ensures
            final(self)@ == (HangarV {
                osw: match old(self)@.stations.last().msn {
                    Some(m) => old(self)@.osw.push(spec_total_workload(m.tasks) as u64),
                    None => old(self)@.osw,
                },
                ..old(self)@
            }),
    {
        proof {
            if old(self)@.stations.last().msn is Some {
                lemma_total_workload_bound(old(self)@.stations.last().msn->0.tasks);
            }
        }
        let last = &self.stations[len - 1];
        match last.get_current_msn() {
            Some(m) => {
                let osw = m.get_workload();
                self.osw.push(osw);
            },
            None => {},
        }
    }

    /// Records the exit station's residual workload, then advances the line:
    /// the exiting unit sinks, every other unit moves one station downstream,
    /// and the entry station becomes empty.
    #[verifier::loop_isolation(false)]
    fn move_all_msn(&mut self)
        requires
            old(self)@.stations.len() >= 1,
            forall|i: int| 0 <= i < old(self)@.stations.len()
                ==> (#[trigger] old(self)@.stations[i]).wf(),
        ensures
            final(self)@ == (HangarV {
                stations: spec_advance(old(self)@.stations),
                osw: match old(self)@.stations.last().msn {
                    Some(m) => old(self)@.osw.push(spec_total_workload(m.tasks) as u64),
                    None => old(self)@.osw,
                },
                exited: old(self)@.exited + old(self)@.stations.last().unit_count(),
                ..old(self)@
            }),
    {
        let len = self.stations.len();
        self.calculate_osw(len);
        let ghost osw1 = self@.osw;
        let ghost s_pre = old(self)@.stations;
        self.exited = Ghost(self.exited@ + s_pre.last().unit_count());
        let last = &mut self.stations[len - 1];
        last.msn_to_sink();
        let ghost s0 = station_views(self.stations@);
        proof {
            assert(s0 =~= s_pre.update(len - 1, StationV { msn: None, ..s_pre.last() }));
        }
        let mut i: usize = len - 1;
        while i >= 1
            invariant
                i <= len - 1,
                self.stations@.len() == len,
                self@.hangar == old(self)@.hangar,
                self@.tact_time == old(self)@.tact_time,
                self@.sots == old(self)@.sots,
                self@.osw == osw1,
                self@.inserted == old(self)@.inserted,
                self@.exited == old(self)@.exited + s_pre.last().unit_count(),
                forall|j: int| i < j < len ==> station_views(self.stations@)[j]
                    == (StationV { msn: s0[j - 1].msn, ..s0[j] }),
                station_views(self.stations@)[i as int]
                    == (StationV { msn: None, ..s0[i as int] }),
                forall|j: int| 0 <= j < i ==> station_views(self.stations@)[j] == s0[j],
            decreases i,
        {
            let ghost pre = station_views(self.stations@);
            let src = &mut self.stations[i - 1];
            let m = src.take_msn();
            proof {
                assert(station_views(self.stations@) =~= pre.update(
                    i - 1,
                    StationV { msn: None, ..pre[i - 1] },
                ));
            }
            let ghost pre2 = station_views(self.stations@);
            let dst = &mut self.stations[i];
            dst.put_msn(m);
            proof {
                assert(station_views(self.stations@) =~= pre2.update(
                    i as int,
                    StationV { msn: s0[i - 1].msn, ..pre2[i as int] },
                ));
            }
            i -= 1;
        }
        proof {
            assert(station_views(self.stations@) =~= spec_advance(s_pre));
        }
    }

    /// One tick of the line, strictly ordered: every team, in list order,
    /// works its primary pass and then its overflow burn and records its
    /// utilization; the exit station's residual workload is recorded; the
    /// line advances one station. The result is exactly
    /// [`spec_tick`] of the previous state, so the whole tick is a function
    /// of the line's mathematical value.
    pub fn tact(&mut self)
        requires
            old(self)@.wf(),
            old(self)@.stations.len() >= 1,
            old(self)@.sots_valid(),
        ensures
            final(self)@ == spec_tick(old(self)@),
            final(self)@.wf(),
            final(self)@.sots_valid(),
            final(self)@.stations.len() == old(self)@.stations.len(),
            final(self)@.stations[0].msn is None,
            final(self)@.inserted == old(self)@.inserted,
    {
        let ghost h0 = old(self)@;
        let nsots = self.sot.len();
        let mut s: usize = 0;
        #[verifier::loop_isolation(false)]
        while s < nsots
            invariant
                s <= nsots,
                self.sot@.len() == nsots,
                (station_views(self.stations@), sot_views(self.sot@)) == spec_teams_pass(
                    h0.stations,
                    h0.sots,
                    h0.tact_time,
                    s as int,
                ),
                self@.hangar == h0.hangar,
                self@.tact_time == h0.tact_time,
                self@.osw == h0.osw,
                self@.inserted == h0.inserted,
                self@.exited == h0.exited,
            decreases nsots - s,
        {
            proof {
                lemma_teams_pass_shape(h0.stations, h0.sots, h0.tact_time, s as int);
                assert(spec_teams_pass(h0.stations, h0.sots, h0.tact_time, s as int).1[
                    s as int].wf());
                assert(sot_views(self.sot@)[s as int] == self.sot@[s as int]@);
            }
            let ghost pre_st = station_views(self.stations@);
            let ghost pre_sots = sot_views(self.sot@);
            Self::tick_team(&mut self.stations, &mut self.sot[s], self.tact_time);
            s += 1;
            proof {
                assert(sot_views(self.sot@) =~= pre_sots.update(
                    s - 1,
                    spec_tick_team(pre_st, pre_sots[s - 1], h0.tact_time).1,
                ));
            }
        }
        proof {
            lemma_teams_pass_shape(h0.stations, h0.sots, h0.tact_time, nsots as int);
            lemma_same_shape_wf(h0.stations, station_views(self.stations@));
        }
        self.move_all_msn();
        proof {
            let (st1, sots1) = spec_teams_pass(h0.stations, h0.sots, h0.tact_time,
                h0.sots.len() as int);
            lemma_unit_count_same_shape(h0.stations, st1);
            lemma_unit_count_advance(st1);
            lemma_same_shape_wf(h0.stations, st1);
            assert(final(self)@ =~= spec_tick(h0));
            // The advance keeps every station's name, so well-formedness and
            // the teams' assignments survive the tick.
            assert forall|i: int| 0 <= i < final(self)@.stations.len() implies (
            #[trigger] final(self)@.stations[i]).wf() by {
                if i > 0 {
                    assert(st1[i - 1].wf());
                } else {
                    assert(st1[0].wf());
                }
            }
            lemma_names_preserved_valid(
                HangarV { sots: sots1, ..h0 },
                final(self)@.stations,
            );
        }
    }

    /// The overflow-work history: one entry per tick whose exit station was
    /// occupied, holding that unit's residual workload.
    pub fn get_osw(&self) -> (r: &Vec<u64>)
        ensures
            r@ == self@.osw,
    {
        &self.osw
    }
}

/// Work keeps stations well formed: the task composition is fixed and
/// workloads only go down.
pub proof fn lemma_same_shape_wf(a: Seq<StationV>, b: Seq<StationV>)
    requires
        line_same_shape(a, b),
        forall|i: int| 0 <= i < a.len() ==> (#[trigger] a[i]).wf(),
    ensures
        forall|i: int| 0 <= i < b.len() ==> (#[trigger] b[i]).wf(),
{
    assert forall|i: int| 0 <= i < b.len() implies (#[trigger] b[i]).wf() by {
        assert(a[i].wf());
        assert(station_same_shape(a[i], b[i]));
        match b[i].msn {
            Some(bm) => {
                let am = a[i].msn->0;
                assert forall|j: int| 0 <= j < bm.tasks.len() implies (#[trigger] bm.tasks[j]).wf()
                by {
                    assert(am.tasks[j].wf());
                }
            },
            None => {},
        }
    }
}

/// Equal shapes and the advance both keep station names, so a valid team
/// assignment stays valid.
pub proof fn lemma_names_preserved_valid(h: HangarV, stations2: Seq<StationV>)
    requires
        h.sots_valid(),
        stations2.len() == h.stations.len(),
        forall|i: int| 0 <= i < h.stations.len()
            ==> (#[trigger] stations2[i]).name == h.stations[i].name,
    ensures
        forall|i: int, j: int|
            0 <= i < h.sots.len() && 0 <= j < h.sots[i].stations.len()
                ==> spec_has_station(stations2, #[trigger] h.sots[i].stations[j]),
{
    assert forall|i: int, j: int|
        0 <= i < h.sots.len() && 0 <= j < h.sots[i].stations.len() implies spec_has_station(
        stations2,
        #[trigger] h.sots[i].stations[j],
    ) by {
        let name = h.sots[i].stations[j];
        assert(spec_has_station(h.stations, name));
        let w = choose|w: int| 0 <= w < h.stations.len() && (#[trigger] h.stations[w]).name
            == name;
        assert(stations2[w].name == name);
    }
}

/// The index of the first station of the given name, if any.
#[verifier::loop_isolation(false)]
fn station_index_of(stations: &Vec<Station>, name: &String) -> (r: Option<usize>)
    ensures
        ({
            let j = spec_station_index(station_views(stations@), name@);
            match r {
                Some(u) => u as int == j && j < stations@.len()
                    && station_views(stations@)[j].name == name@,
                None => j == -1,
            }
        }),
{
    let ghost sv = station_views(stations@);
    let n = stations.len();
    let mut i: usize = 0;
    proof {
        assert(sv.skip(0) =~= sv);
    }
    while i < n
        invariant
            i <= n,
            spec_station_index(sv.skip(i as int), name@) >= 0 ==> spec_station_index(sv, name@)
                == i + spec_station_index(sv.skip(i as int), name@),
            spec_station_index(sv.skip(i as int), name@) < 0 ==> spec_station_index(sv, name@)
                < 0,
            forall|j: int| 0 <= j < i ==> (#[trigger] sv[j]).name != name@,
        decreases n - i,
    {
        proof {
            assert(sv.skip(i as int)[0] == sv[i as int]);
            assert(sv.skip(i as int).drop_first() =~= sv.skip(i + 1));
        }
        if stations[i].has_name(name) {
            return Some(i);
        }
        i += 1;
    }
    proof {
        assert(sv.skip(n as int) =~= Seq::<StationV>::empty());
    }
    None
}

impl Hangar {
    /// The primary pass of one team: every station, from the exit end toward
    /// the entry end, has the team's eligible tasks worked against the
    /// running budget.
    #[verifier::loop_isolation(false)]
    fn work_primary(stations: &mut Vec<Station>, sot_name: &String, available: u64) -> (r: u64)
        ensures
            station_views(final(stations)@) == spec_primary_pass(
                station_views(old(stations)@),
                sot_name@,
                available,
                old(stations)@.len() as int,
            ).0,
            r == spec_primary_pass(
                station_views(old(stations)@),
                sot_name@,
                available,
                old(stations)@.len() as int,
            ).1,
    {
        let ghost v0 = station_views(old(stations)@);
        let ghost n0 = old(stations)@.len() as int;
        let n = stations.len();
        let mut avail = available;
        let mut i: usize = n;
        while i > 0
            invariant
                i <= n,
                stations@.len() == n,
                spec_primary_pass(v0, sot_name@, available, n0) == spec_primary_pass(
                    station_views(stations@),
                    sot_name@,
                    avail,
                    i as int,
                ),
            decreases i,
        {
            i -= 1;
            let ghost pre = station_views(stations@);
            let ghost avail_pre = avail;
            let idxs = stations[i].primary_task_idxs(sot_name);
            let st = &mut stations[i];
            avail = st.work_tasks(&idxs, avail);
            proof {
                assert(station_views(stations@) =~= pre.update(
                    i as int,
                    spec_station_work(pre[i as int], idxs@, avail_pre).0,
                ));
            }
        }
        avail
    }

    /// The overflow pass of one team: its assigned stations, in configured
    /// order, have all of the team's tasks worked against the leftover
    /// budget, until the budget runs out. An assigned name that matches no
    /// station selects nothing; a valid configuration never reaches that
    /// branch.
    #[verifier::loop_isolation(false)]
    fn work_on_osw(
        stations: &mut Vec<Station>,
        names: &Vec<String>,
        sot_name: &String,
        available: u64,
    ) -> (r: u64)
        ensures
            station_views(final(stations)@) == spec_osw_pass(
                station_views(old(stations)@),
                names@.map_values(|s: String| s@),
                sot_name@,
                available,
            ).0,
            r == spec_osw_pass(
                station_views(old(stations)@),
                names@.map_values(|s: String| s@),
                sot_name@,
                available,
            ).1,
    {
        let ghost v0 = station_views(old(stations)@);
        let ghost ns = names@.map_values(|s: String| s@);
        let mut avail = available;
        let mut k: usize = 0;
        proof {
            assert(ns.skip(0) =~= ns);
        }
        while k < names.len() && avail > 0
            invariant
                k <= names@.len(),
                spec_osw_pass(v0, ns, sot_name@, available) == spec_osw_pass(
                    station_views(stations@),
                    ns.skip(k as int),
                    sot_name@,
                    avail,
                ),
            decreases names@.len() - k,
        {
            proof {
                assert(ns.skip(k as int)[0] == ns[k as int]);
                assert(ns.skip(k as int).drop_first() =~= ns.skip(k + 1));
            }
            match station_index_of(stations, &names[k]) {
                Some(j) => {
                    let ghost pre = station_views(stations@);
                    let ghost avail_pre = avail;
                    let idxs = stations[j].team_task_idxs(sot_name);
                    let st = &mut stations[j];
                    avail = st.work_tasks(&idxs, avail);
                    proof {
                        assert(station_views(stations@) =~= pre.update(
                            j as int,
                            spec_station_work(pre[j as int], idxs@, avail_pre).0,
                        ));
                    }
                },
                None => {
                    // A team assigned to a station the line does not have is a
                    // fatal configuration error; a valid line never gets here,
                    // and the pass simply selects nothing.
                },
            }
            k += 1;
        }
        proof {
            if k < names@.len() {
                assert(avail == 0);
            } else {
                assert(ns.skip(k as int) =~= Seq::<Seq<char>>::empty());
            }
        }
        avail
    }

    /// One team's whole share of a tick: primary work with a fresh budget,
    /// overflow burn with whatever is left, one utilization record.
    fn tick_team(stations: &mut Vec<Station>, sot: &mut SOT, tact_time: u64)
        requires
            old(sot)@.wf(),
            1 <= tact_time <= MAX_TACT,
        ensures
            station_views(final(stations)@) == spec_tick_team(
                station_views(old(stations)@),
                old(sot)@,
                tact_time,
            ).0,
            final(sot)@ == spec_tick_team(station_views(old(stations)@), old(sot)@, tact_time).1,
    {
        let ghost v0 = station_views(old(stations)@);
        let sot_name = sot.get_name();
        let budget = sot.budget(tact_time);
        let mut remaining = Self::work_primary(stations, &sot_name, budget);
        proof {
            lemma_primary_pass_shape(v0, old(sot)@.name, budget, v0.len() as int);
        }
        let ghost v1 = station_views(stations@);
        let ghost a1 = remaining;
        if remaining > 0 {
            let names = sot.get_stations();
            remaining = Self::work_on_osw(stations, &names, &sot_name, remaining);
        }
        proof {
            if a1 == 0 {
                assert(spec_osw_pass(v1, old(sot)@.stations, old(sot)@.name, a1) == (v1, a1));
            }
            lemma_osw_pass_shape(v1, old(sot)@.stations, old(sot)@.name, a1);
        }
        sot.add_utilization(budget - remaining, budget);
    }
}

/// `indexmap::IndexMap`, the order-keeping map the utilization table is
/// handed out in; declared so it can stand in signatures.
#[verifier::external_type_specification]
#[verifier::external_body]
#[verifier::reject_recursive_types(K)]
#[verifier::reject_recursive_types(V)]
#[verifier::reject_recursive_types(S)]
pub struct ExIndexMap<K, V, S>(indexmap::IndexMap<K, V, S>);

/// The entries a utilization map holds, as (team name, per-tick records)
/// pairs in the map's own order.
pub uninterp spec fn index_map_entries(
    m: indexmap::IndexMap<String, Vec<(u64, u64)>, std::collections::hash_map::RandomState>,
) -> Seq<(Seq<char>, Seq<(u64, u64)>)>;

/// The first entry carrying the given key, or -1 when there is none.
pub open spec fn spec_entries_key_index(
    es: Seq<(Seq<char>, Seq<(u64, u64)>)>,
    k: Seq<char>,
) -> int
    decreases es.len(),
{
    if es.len() == 0 {
        -1
    } else if es[0].0 == k {
        0
    } else {
        let r = spec_entries_key_index(es.drop_first(), k);
        if r < 0 {
            -1
        } else {
            r + 1
        }
    }
}

/// What inserting a pair does to the entries: a fresh key is appended last;
/// an existing key keeps its place and only its value changes.
pub open spec fn spec_entries_insert(
    es: Seq<(Seq<char>, Seq<(u64, u64)>)>,
    k: Seq<char>,
    v: Seq<(u64, u64)>,
) -> Seq<(Seq<char>, Seq<(u64, u64)>)> {
    let j = spec_entries_key_index(es, k);
    if 0 <= j < es.len() {
        es.update(j, (k, v))
    } else {
        es.push((k, v))
    }
}

/// Relies on indexmap::IndexMap::new: a fresh map holds no entries.
#[verifier::external_body]
fn util_map_new() -> (m: indexmap::IndexMap<
    String,
    Vec<(u64, u64)>,
    std::collections::hash_map::RandomState,
>)
    ensures
        index_map_entries(m) == Seq::<(Seq<char>, Seq<(u64, u64)>)>::empty(),
{
    indexmap::IndexMap::new()
}

/// Relies on indexmap::IndexMap::insert: a key not yet present is appended
/// last in order; an equivalent existing key keeps its place in the order and
/// only its value is replaced.
#[verifier::external_body]
fn util_map_insert(
    m: &mut indexmap::IndexMap<String, Vec<(u64, u64)>, std::collections::hash_map::RandomState>,
    k: String,
    v: Vec<(u64, u64)>,
)
    ensures
        index_map_entries(*final(m)) == spec_entries_insert(
            index_map_entries(*old(m)),
            k@,
            v@,
        ),
{
    m.insert(k, v);
}

/// The utilization table of a team list: one entry per team, in team order,
/// later teams of the same name overriding earlier ones in place.
pub open spec fn spec_util_entries(sots: Seq<SotV>) -> Seq<(Seq<char>, Seq<(u64, u64)>)>
    decreases sots.len(),
{
    if sots.len() == 0 {
        Seq::empty()
    } else {
        spec_entries_insert(
            spec_util_entries(sots.drop_last()),
            sots.last().name,
            sots.last().utilization,
        )
    }
}

impl Hangar {
    /// The last station of the line, open for mutation. What the caller does
    /// through the reference shows up in the line's value; the conservation
    /// ledger is not adjusted, so occupancy must be left as found for the
    /// line to stay well formed.
    pub fn get_last_station_mut(&mut self) -> (r: &mut Station)
        requires
            old(self)@.stations.len() >= 1,
        ensures
            (*r)@ == old(self)@.stations.last(),
            final(self)@ == (HangarV {
                stations: old(self)@.stations.update(
                    old(self)@.stations.len() - 1,
                    (*final(r))@,
                ),
                ..old(self)@
            }),
    {
        broadcast use lemma_station_views_update;

        let length = self.stations.len();
        &mut self.stations[length - 1]
    }

    /// The per-team utilization time series, keyed by team name in team
    /// order: the output the I/O layer writes out.
    #[verifier::loop_isolation(false)]
    pub fn get_sot_utilization(&self) -> (r: indexmap::IndexMap<
        String,
        Vec<(u64, u64)>,
        std::collections::hash_map::RandomState,
    >)
        ensures
            index_map_entries(r) == spec_util_entries(self@.sots),
    {
        let mut map = util_map_new();
        let mut i: usize = 0;
        while i < self.sot.len()
            invariant
                i <= self.sot@.len(),
                index_map_entries(map) == spec_util_entries(self@.sots.take(i as int)),
            decreases self.sot@.len() - i,
        {
            let name = self.sot[i].get_name();
            let util = self.sot[i].get_utilization();
            util_map_insert(&mut map, name, util);
            i += 1;
            proof {
                assert(self@.sots.take(i as int).drop_last() =~= self@.sots.take(i - 1));
                assert(self@.sots.take(i as int).last() == self@.sots[i - 1]);
            }
        }
        proof {
            assert(self@.sots.take(self.sot@.len() as int) =~= self@.sots);
        }
        map
    }
}

/// Every station name a team is assigned to names some station of the line.
pub open spec fn spec_assignments_exist(stations: Seq<StationV>, sots: Seq<SotV>) -> bool {
    forall|i: int, j: int|
        0 <= i < sots.len() && 0 <= j < sots[i].stations.len()
            ==> spec_has_station(stations, #[trigger] sots[i].stations[j])
}

/// Whether every station the teams are assigned to exists among the given
/// stations. A team naming a missing station is a fatal configuration error;
/// this is the load-time check for it.
#[verifier::loop_isolation(false)]
pub fn assignments_exist(stations: &Vec<Station>, sots: &Vec<SOT>) -> (r: bool)
    ensures
        r == spec_assignments_exist(station_views(stations@), sot_views(sots@)),
{
    let ghost sv = station_views(stations@);
    let ghost tv = sot_views(sots@);
    let mut i: usize = 0;
    while i < sots.len()
        invariant
            i <= sots@.len(),
            forall|a: int, b: int|
                0 <= a < i && 0 <= b < tv[a].stations.len()
                    ==> spec_has_station(sv, #[trigger] tv[a].stations[b]),
        decreases sots@.len() - i,
    {
        let names = sots[i].get_stations();
        let mut j: usize = 0;
        while j < names.len()
            invariant
                j <= names@.len(),
                names@.map_values(|s: String| s@) == tv[i as int].stations,
                i < sots@.len(),
                forall|b: int| 0 <= b < j
                    ==> spec_has_station(sv, #[trigger] tv[i as int].stations[b]),
            decreases names@.len() - j,
        {
            if station_index_of(stations, &names[j]).is_none() {
                proof {
                    lemma_station_index_none(sv, tv[i as int].stations[j as int]);
                }
                return false;
            }
            j += 1;
        }
        i += 1;
    }
    true
}

/// A negative station index means no station of that name exists.
pub proof fn lemma_station_index_none(stations: Seq<StationV>, name: Seq<char>)
    requires
        spec_station_index(stations, name) == -1,
    ensures
        !spec_has_station(stations, name),
    decreases stations.len(),
{
    if stations.len() > 0 {
        lemma_station_index_none(stations.drop_first(), name);
        assert forall|i: int| 0 <= i < stations.len() implies (#[trigger] stations[i]).name
            != name by {
            if i > 0 {
                assert(stations.drop_first()[i - 1] == stations[i]);
                assert(!spec_has_station(stations.drop_first(), name));
            }
        }
    }
}

/// Appending a station adds its occupancy to the unit count.
pub proof fn lemma_unit_count_push(stations: Seq<StationV>, st: StationV)
    ensures
        spec_unit_count(stations.push(st)) == spec_unit_count(stations) + st.unit_count(),
{
    assert(stations.push(st).drop_last() =~= stations);
}

/// A unit count is never negative.
pub proof fn lemma_unit_count_nonneg(stations: Seq<StationV>)
    ensures
        spec_unit_count(stations) >= 0,
    decreases stations.len(),
{
    if stations.len() > 0 {
        lemma_unit_count_nonneg(stations.drop_last());
    }
}

} // verus!
