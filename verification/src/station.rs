//! A station: one position in the ordered line, holding at most one
//! work-unit at a time.
use vstd::prelude::*;
use crate::msn::{MSN, MsnV, spec_task_idxs, spec_work_tasks};

verus! {

/// The mathematical value of a [`Station`]: a name and the unit it holds, if
/// any. An `Option` holds at most one unit, so single occupancy is built in.
pub ghost struct StationV {
    pub name: Seq<char>,
    pub msn: Option<MsnV>,
}

impl StationV {
    /// A station is well formed when the unit it holds, if any, is.
    pub open spec fn wf(self) -> bool {
        match self.msn {
            Some(m) => m.wf(),
            None => true,
        }
    }

    /// How many work-units this station holds: zero or one, never more.
    pub open spec fn unit_count(self) -> int {
        if self.msn is Some {
            1
        } else {
            0
        }
    }
}

/// The mathematical value of an optional work-unit.
pub open spec fn opt_msn_view(o: Option<MSN>) -> Option<MsnV> {
    match o {
        Some(m) => Some(m@),
        None => None,
    }
}

/// An ASCII lowercase letter mapped to its uppercase equivalent; any other
/// character unchanged.
pub open spec fn spec_ascii_upper_char(c: char) -> char {
    if 'a' <= c && c <= 'z' {
        ((c as u8) - 32) as char
    } else {
        c
    }
}

/// A character sequence with its ASCII lowercase letters mapped to uppercase.
pub open spec fn spec_ascii_upper(s: Seq<char>) -> Seq<char> {
    s.map_values(|c: char| spec_ascii_upper_char(c))
}

/// Relies on str::to_ascii_uppercase: ASCII letters 'a' to 'z' are mapped to
/// 'A' to 'Z'; every other character is unchanged.
#[verifier::external_body]
fn ascii_uppercase(s: &str) -> (r: String)
    ensures
        r@ == spec_ascii_upper(s@),
{
    s.to_ascii_uppercase()
}

/// Works the unit held by a station, if any, along the given task indices;
/// returns the station afterwards and the leftover labor budget.
pub open spec fn spec_station_work(st: StationV, idxs: Seq<usize>, available: u64) -> (StationV, u64) {
    match st.msn {
        None => (st, available),
        Some(m) => {
            let (tasks2, left) = spec_work_tasks(m.tasks, idxs, available);
            (StationV { msn: Some(MsnV { tasks: tasks2, ..m }), ..st }, left)
        },
    }
}

/// The task indices the team named `sot` may work at this station during the
/// primary pass: the unit's tasks owned by the team and eligible here.
pub open spec fn spec_station_primary_idxs(st: StationV, sot: Seq<char>) -> Seq<usize> {
    match st.msn {
        None => Seq::empty(),
        Some(m) => spec_task_idxs(m.tasks, Some(st.name), sot),
    }
}

/// The task indices the team named `sot` may work at this station during the
/// overflow pass: all of the unit's tasks owned by the team.
pub open spec fn spec_station_team_idxs(st: StationV, sot: Seq<char>) -> Seq<usize> {
    match st.msn {
        None => Seq::empty(),
        Some(m) => spec_task_idxs(m.tasks, None, sot),
    }
}

#[derive(Debug)]
pub struct Station {
    name: String,
    current_msn: Option<MSN>,
}

impl View for Station {
    type V = StationV;

    closed spec fn view(&self) -> StationV {
        StationV { name: self.name@, msn: opt_msn_view(self.current_msn) }
    }
}

impl Station {
    /// A fresh, empty station; the name is normalized to ASCII uppercase.
    pub fn new(name: &str) -> (s: Station)
        ensures
            s@ == (StationV { name: spec_ascii_upper(name@), msn: None::<MsnV> }),
    {
        Station { name: ascii_uppercase(name), current_msn: None }
    }

    pub fn get_name(&self) -> (r: &str)
        ensures
            r@ == self@.name,
    {
        self.name.as_str()
    }

    /// Whether this station carries the given (already normalized) name.
    pub fn has_name(&self, name: &String) -> (r: bool)
        ensures
            r == (self@.name == name@),
    {
        self.name == *name
    }

    pub fn get_current_msn(&self) -> (r: Option<&MSN>)
        ensures
            r is Some <==> self@.msn is Some,
            r is Some ==> r->0@ == self@.msn->0,
    {
        self.current_msn.as_ref()
    }

    pub fn get_msn_mut(&mut self) -> (r: &mut Option<MSN>)
        ensures
            opt_msn_view(*r) == old(self)@.msn,
            final(self)@ == (StationV { msn: opt_msn_view(*final(r)), ..old(self)@ }),
    {
        &mut self.current_msn
    }

    /// Puts a work-unit on this station, replacing whatever it held.
    pub fn set_current_msn(&mut self, msn: MSN)
        ensures
            final(self)@ == (StationV { msn: Some(msn@), ..old(self)@ }),
    {
        self.current_msn = Some(msn);
    }

    /// Hands this station's unit, if any, one position downstream: the unit
    /// moves onto `next_station` and this station becomes empty. An empty
    /// station leaves its neighbour untouched.
    pub fn tact_msn(&mut self, next_station: &mut Station)
        ensures
            final(self)@ == (StationV { msn: None::<MsnV>, ..old(self)@ }),
            final(next_station)@ == (StationV {
                msn: if old(self)@.msn is Some {
                    old(self)@.msn
                } else {
                    old(next_station)@.msn
                },
                ..old(next_station)@
            }),
    {
        let msn = self.current_msn.take();
        if let Some(msn) = msn {
            next_station.current_msn = Some(msn);
        }
    }

    /// Takes this station's unit out, leaving the station empty.
    pub fn take_msn(&mut self) -> (r: Option<MSN>)
        ensures
            final(self)@ == (StationV { msn: None::<MsnV>, ..old(self)@ }),
            opt_msn_view(r) == old(self)@.msn,
    {
        self.current_msn.take()
    }

    /// Puts an optional unit on this station, replacing whatever it held.
    pub fn put_msn(&mut self, msn: Option<MSN>)
        ensures
            final(self)@ == (StationV { msn: opt_msn_view(msn), ..old(self)@ }),
    {
        self.current_msn = msn;
    }

    /// Discards this station's unit: the unit exits the line.
    pub fn msn_to_sink(&mut self)
        ensures
            final(self)@ == (StationV { msn: None::<MsnV>, ..old(self)@ }),
    {
        self.current_msn = None;
    }

    /// The indices of the tasks the team named `sot_name` works here during
    /// the primary pass.
    pub fn primary_task_idxs(&self, sot_name: &String) -> (r: Vec<usize>)
        ensures
            r@ == spec_station_primary_idxs(self@, sot_name@),
    {
        match self.current_msn.as_ref() {
            Some(m) => m.get_tasks(&self.name, sot_name),
            None => Vec::new(),
        }
    }

    /// The indices of all tasks of the team named `sot_name` on the unit
    /// held here, regardless of station eligibility.
    pub fn team_task_idxs(&self, sot_name: &String) -> (r: Vec<usize>)
        ensures
            r@ == spec_station_team_idxs(self@, sot_name@),
    {
        match self.current_msn.as_ref() {
            Some(m) => m.get_sot_tasks(sot_name),
            None => Vec::new(),
        }
    }

    /// Works the unit held here along the given task indices; hands back the
    /// leftover labor budget. An empty station leaves the budget untouched.
    pub fn work_tasks(&mut self, idxs: &Vec<usize>, available: u64) -> (r: u64)
        ensures
            final(self)@ == spec_station_work(old(self)@, idxs@, available).0,
            r == spec_station_work(old(self)@, idxs@, available).1,
    {
        let msn_opt = self.current_msn.take();
        match msn_opt {
            None => {
                self.current_msn = None;
                available
            },
            Some(mut m) => {
                let r = m.work_tasks(idxs, available);
                self.current_msn = Some(m);
                r
            },
        }
    }
}

} // verus!
