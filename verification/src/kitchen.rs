//! The kitchen: the fixed set of stations, and routed admission of jobs to
//! the station that each item kind maps to.

use vstd::prelude::*;
use crate::model::Station;
use crate::station::{Job, StationHandle};

verus! {

/// The fixed station set of a run: one station per family.
#[derive(Debug)]
pub struct Kitchen {
    pub grill: StationHandle,
    pub fryer: StationHandle,
    pub drink: StationHandle,
}

impl Kitchen {
    /// Well-formedness: every station is well formed and carries its own
    /// identity.
    pub open spec fn wf(self) -> bool {
        &&& self.grill.wf()
        &&& self.fryer.wf()
        &&& self.drink.wf()
        &&& self.grill.which == Station::Grill
        &&& self.fryer.which == Station::Fryer
        &&& self.drink.which == Station::Drink
    }

    /// The station of this kitchen with the given identity.
    pub open spec fn station_view(self, s: Station) -> StationHandle {
        match s {
            Station::Grill => self.grill,
            Station::Fryer => self.fryer,
            Station::Drink => self.drink,
        }
    }

    /// Build a kitchen of three stations, each with its own worker pool size
    /// and queue capacity, all idle and empty.
    pub fn new(
        grill_workers: usize,
        grill_buffer: usize,
        fryer_workers: usize,
        fryer_buffer: usize,
        drink_workers: usize,
        drink_buffer: usize,
    ) -> (k: Kitchen)
        ensures
            k.wf(),
            k.grill.workers == grill_workers,
            k.grill.buffer == grill_buffer,
            k.fryer.workers == fryer_workers,
            k.fryer.buffer == fryer_buffer,
            k.drink.workers == drink_workers,
            k.drink.buffer == drink_buffer,
            forall|s: Station| #[trigger] k.station_view(s).queue@.len() == 0,
            forall|s: Station| #[trigger] k.station_view(s).active_workers == 0,
    {
        Kitchen {
            grill: StationHandle::new(Station::Grill, grill_workers, grill_buffer),
            fryer: StationHandle::new(Station::Fryer, fryer_workers, fryer_buffer),
            drink: StationHandle::new(Station::Drink, drink_workers, drink_buffer),
        }
    }

    /// Route one job to the station its item kind maps to and try to admit
    /// it there; the other stations are untouched. A refusal models the
    /// submitter suspending until that station has room, never a drop.
    pub fn try_submit(&mut self, job: Job) -> (admitted: bool)
        requires
            old(self).wf(),
        ensures
            final(self).wf(),
            ({
                let t = job.item_kind.station_spec();
                let before = old(self).station_view(t);
                let after = final(self).station_view(t);
                &&& admitted == (before.queue@.len() < before.buffer)
                &&& (admitted ==> after.queue@ == before.queue@.push(job))
                &&& (!admitted ==> after.queue@ == before.queue@)
                &&& after.active_workers == before.active_workers
                &&& after.workers == before.workers
                &&& after.buffer == before.buffer
                &&& forall|s: Station|
                    s != t ==> #[trigger] final(self).station_view(s) == old(self).station_view(s)
            }),
    {
        match job.item_kind.station() {
            Station::Grill => self.grill.try_submit(job),
            Station::Fryer => self.fryer.try_submit(job),
            Station::Drink => self.drink.try_submit(job),
        }
    }
}

} // verus!
