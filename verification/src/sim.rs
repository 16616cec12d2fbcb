//! The simulation driver: owns the line, the work-plan and the settings,
//! feeds each planned unit into the line with one tick apiece, then lets the
//! line drain.
use vstd::prelude::*;
use crate::hangar::{Hangar, HangarV, spec_tick, spec_assignments_exist,
    assignments_exist, station_views, sot_views, spec_unit_count, lemma_unit_count_nonneg};
use crate::station::StationV;
use crate::msn::{MSN, MsnV};
use crate::settings::{Settings, SettingsV};
use crate::sot::SOT;
use crate::station::Station;
use crate::MAX_TACT;

verus! {

/// The mathematical values of a line sequence.
pub open spec fn hangar_views(v: Seq<Hangar>) -> Seq<HangarV> {
    v.map_values(|h: Hangar| h@)
}

/// Updating one line of a vector updates one value of its view.
pub broadcast proof fn lemma_hangar_views_update(v: Seq<Hangar>, i: int, h: Hangar)
    requires
        0 <= i < v.len(),
    ensures
        #[trigger] hangar_views(v.update(i, h)) == hangar_views(v).update(i, h@),
{
    assert(hangar_views(v.update(i, h)) =~= hangar_views(v).update(i, h@));
}

/// The mathematical values of a work-unit sequence.
pub open spec fn msn_views(v: Seq<MSN>) -> Seq<MsnV> {
    v.map_values(|m: MSN| m@)
}

/// The mathematical value of a [`SIM`].
pub ghost struct SimV {
    pub hangars: Seq<HangarV>,
    pub msns: Seq<MsnV>,
    pub settings: SettingsV,
}

/// Placing a unit on the (empty) entry station.
pub open spec fn spec_insert(h: HangarV, m: MsnV) -> HangarV {
    HangarV {
        stations: h.stations.update(0, StationV { msn: Some(m), ..h.stations[0] }),
        inserted: h.inserted + 1,
        ..h
    }
}

/// The feed phase: each planned unit in order is inserted at the entry
/// station and the line ticks once.
pub open spec fn spec_feed(h: HangarV, msns: Seq<MsnV>) -> HangarV
    decreases msns.len(),
{
    if msns.len() == 0 {
        h
    } else {
        spec_feed(spec_tick(spec_insert(h, msns[0])), msns.drop_first())
    }
}

/// The drain phase: `k` more ticks with nothing inserted.
pub open spec fn spec_drain(h: HangarV, k: int) -> HangarV
    decreases k,
{
    if k <= 0 {
        h
    } else {
        spec_drain(spec_tick(h), k - 1)
    }
}

/// A whole run: feed every planned unit, then drain for as many ticks as the
/// line has stations, so the last unit exits.
pub open spec fn spec_run(h: HangarV, msns: Seq<MsnV>) -> HangarV {
    spec_drain(spec_feed(h, msns), h.stations.len() as int)
}

pub struct SIM {
    hangar: Vec<Hangar>,
    msns: Vec<MSN>,
    settings: Settings,
}

impl View for SIM {
    type V = SimV;

    closed spec fn view(&self) -> SimV {
        SimV {
            hangars: hangar_views(self.hangar@),
            msns: msn_views(self.msns@),
            settings: self.settings@,
        }
    }
}

impl SIM {
    /// A fresh driver with no lines, no work-plan, and default settings.
    pub fn new() -> (s: SIM)
        ensures
            s@.hangars == Seq::<HangarV>::empty(),
            s@.msns == Seq::<MsnV>::empty(),
            s@.settings == (SettingsV { tacttime: 9300u64, bc_inefficiency: 86u64 }),
    {
        let s = SIM { hangar: Vec::new(), msns: Vec::new(), settings: Settings::new() };
        proof {
            assert(s@.hangars =~= Seq::<HangarV>::empty());
            assert(s@.msns =~= Seq::<MsnV>::empty());
        }
        s
    }

    pub fn set_tacttime(&mut self, tact_time: u64)
        requires
            1 <= tact_time <= MAX_TACT,
        ensures
            final(self)@ == (SimV {
                settings: SettingsV { tacttime: tact_time, ..old(self)@.settings },
                ..old(self)@
            }),
    {
        self.settings.set_tacttime(tact_time);
    }

    pub fn set_bc_inefficiency(&mut self, inefficiency: u64)
        ensures
            final(self)@ == (SimV {
                settings: SettingsV { bc_inefficiency: inefficiency, ..old(self)@.settings },
                ..old(self)@
            }),
    {
        self.settings.set_bc_inefficiency(inefficiency);
    }

    /// A team's effective efficiency factor under the current settings: the
    /// raw factor less the global correction, floored at zero.
    pub fn effective_cvat(&self, raw: u64) -> (r: u64)
        ensures
            r == if raw >= self@.settings.bc_inefficiency {
                (raw - self@.settings.bc_inefficiency) as u64
            } else {
                0u64
            },
    {
        self.settings.effective_cvat(raw)
    }

    /// Appends a fresh, empty line with the configured tick duration.
    pub fn add_hangar(&mut self, hangar_name: &str) -> (r: &Hangar)
        requires
            1 <= old(self)@.settings.tacttime <= MAX_TACT,
        ensures
            final(self)@ == (SimV {
                hangars: old(self)@.hangars.push(r@),
                ..old(self)@
            }),
            r@ == (HangarV {
                hangar: hangar_name@,
                stations: Seq::empty(),
                tact_time: old(self)@.settings.tacttime,
                sots: Seq::empty(),
                osw: Seq::empty(),
                inserted: 0int,
                exited: 0int,
            }),
            r@.wf(),
    {
        let hangar: Hangar = Hangar::new(hangar_name, self.settings.get_tacttime());
        self.hangar.push(hangar);
        let n = self.hangar.len();
        proof {
            assert(hangar_views(self.hangar@) =~= old(self)@.hangars.push(
                hangar_views(self.hangar@).last(),
            ));
        }
        &self.hangar[n - 1]
    }

    pub fn get_hangar(&self, index: usize) -> (r: &Hangar)
        requires
            index < self@.hangars.len(),
        ensures
            r@ == self@.hangars[index as int],
    {
        &self.hangar[index]
    }

    pub fn get_hangar_mut(&mut self, index: usize) -> (r: &mut Hangar)
        requires
            index < old(self)@.hangars.len(),
        ensures
            (*r)@ == old(self)@.hangars[index as int],
            final(self)@ == (SimV {
                hangars: old(self)@.hangars.update(index as int, (*final(r))@),
                ..old(self)@
            }),
    {
        broadcast use lemma_hangar_views_update;

        &mut self.hangar[index]
    }

    /// Wires the loaded configuration into the first line: the stations, the
    /// teams, and the work-plan. Fails, changing nothing, when some team is
    /// assigned to a station the line does not have — the data-entry mistake
    /// named in the error.
    pub fn load_data(&mut self, stations: Vec<Station>, sots: Vec<SOT>, msns: Vec<MSN>) -> (r:
        Result<(), String>)
        requires
            old(self)@.hangars.len() >= 1,
        ensures
            ({
                let valid = spec_assignments_exist(
                    station_views(stations@),
                    sot_views(sots@),
                );
                match r {
                    Ok(()) => valid && final(self)@ == (SimV {
                        hangars: old(self)@.hangars.update(
                            0,
                            HangarV {
                                stations: station_views(stations@),
                                sots: sot_views(sots@),
                                inserted: old(self)@.hangars[0].exited + spec_unit_count(
                                    station_views(stations@),
                                ),
                                ..old(self)@.hangars[0]
                            },
                        ),
                        msns: msn_views(msns@),
                        ..old(self)@
                    }),
                    Err(_) => !valid && final(self)@ == old(self)@,
                }
            }),
    {
        broadcast use lemma_hangar_views_update;

        if !assignments_exist(&stations, &sots) {
            return Err(
                "A team names a station the line does not have: every station in the team table must also stand in the station table.".to_owned(),
            );
        }
        let hangar = &mut self.hangar[0];
        hangar.set_stations(stations);
        hangar.set_sot(sots);
        self.msns = msns;
        Ok(())
    }

    /// Runs the simulation to the end: every planned unit is inserted and
    /// ticked into the line in order, then the line ticks once per station so
    /// the last unit exits. The final state is exactly [`spec_run`] of the
    /// starting state, so a rerun from the same configuration gives the same
    /// overflow and utilization histories.
    pub fn run(&mut self) -> (r: Result<(), String>)
        requires
            old(self)@.hangars.len() >= 1,
            old(self)@.hangars[0].wf(),
            old(self)@.hangars[0].sots_valid(),
            old(self)@.hangars[0].stations.len() >= 1,
            old(self)@.hangars[0].stations[0].msn is None,
            forall|i: int| 0 <= i < old(self)@.msns.len() ==> (#[trigger] old(self)@.msns[i]).wf(),
        ensures
            r is Ok,
            final(self)@ == (SimV {
                hangars: old(self)@.hangars.update(
                    0,
                    spec_run(old(self)@.hangars[0], old(self)@.msns),
                ),
                msns: Seq::empty(),
                ..old(self)@
            }),
    {
        broadcast use lemma_hangar_views_update;

        let ghost h0 = old(self)@.hangars[0];
        let ghost msns0 = old(self)@.msns;
        let ghost st_n = h0.stations.len() as int;
        proof {
            assert(self@.hangars =~= old(self)@.hangars.update(0, self@.hangars[0]));
        }
        #[verifier::loop_isolation(false)]
        while self.msns.len() > 0
            invariant
                self@.hangars.len() == old(self)@.hangars.len() >= 1,
                self@.hangars == old(self)@.hangars.update(0, self@.hangars[0]),
                self@.settings == old(self)@.settings,
                spec_feed(h0, msns0) == spec_feed(self@.hangars[0], self@.msns),
                self@.hangars[0].wf(),
                self@.hangars[0].sots_valid(),
                self@.hangars[0].stations.len() == st_n >= 1,
                self@.hangars[0].stations[0].msn is None,
                forall|i: int| 0 <= i < self@.msns.len() ==> (#[trigger] self@.msns[i]).wf(),
            decreases self@.msns.len(),
        {
            let ghost pre_h = self@.hangars[0];
            let ghost pre_msns = self@.msns;
            let msn = self.msns.remove(0);
            proof {
                assert(msn_views(self.msns@) =~= pre_msns.drop_first());
                lemma_unit_count_nonneg(pre_h.stations);
            }
            let hangar = &mut self.hangar[0];
            hangar.insert_msn(msn);
            hangar.tact();
            proof {
                assert(self@.hangars =~= old(self)@.hangars.update(0, self@.hangars[0]));
            }
        }
        proof {
            assert(msn_views(self.msns@) =~= Seq::<MsnV>::empty());
            assert(spec_feed(h0, msns0) == self@.hangars[0]);
        }
        let ghost mid = self@.hangars[0];
        let n = self.get_hangar(0).get_number_of_stations();
        let mut i: usize = 0;
        #[verifier::loop_isolation(false)]
        while i < n
            invariant
                i <= n,
                n == st_n,
                self@.hangars.len() == old(self)@.hangars.len() >= 1,
                self@.hangars == old(self)@.hangars.update(0, self@.hangars[0]),
                self@.settings == old(self)@.settings,
                self@.msns == Seq::<MsnV>::empty(),
                spec_drain(mid, st_n) == spec_drain(self@.hangars[0], st_n - i),
                self@.hangars[0].wf(),
                self@.hangars[0].sots_valid(),
                self@.hangars[0].stations.len() == st_n,
            decreases n - i,
        {
            let hangar = &mut self.hangar[0];
            hangar.tact();
            i += 1;
        }
        proof {
            assert(spec_drain(mid, st_n) == self@.hangars[0]);
            assert(spec_run(h0, msns0) == self@.hangars[0]);
        }
        Ok(())
    }
}

} // verus!
