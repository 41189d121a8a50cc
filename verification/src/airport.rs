//! One airport: its reference data and the inbound event queue it drains
//! each tick, answering every runway request with a landing clearance.

use std::collections::VecDeque;

use vstd::prelude::*;

use crate::config::Config;
use crate::plane::{clone_string, AirportEvent, PlaneEvent, PlaneEventPayload};
use crate::world_data::AirportData;

verus! {

/// An airport of the running simulation.
#[derive(Clone, Debug)]
pub struct Airport {
    pub id: String,
    pub airport: AirportData,
    pub events: VecDeque<AirportEvent>,
}

impl Airport {
    /// Valid reference data, with the identifier matching the airport code.
    pub open spec fn wf(self) -> bool {
        self.airport.wf() && self.id@ == self.airport.code@
    }

    /// A new airport over its reference data, with an empty inbox.
    pub fn new(airport: AirportData) -> (r: Airport)
        requires
            airport.wf(),
        ensures
            r.wf(),
            r.events@.len() == 0,
            r.id@ == airport.code@,
            r.airport == airport,
    {
        Airport { id: clone_string(&airport.code), airport, events: VecDeque::new() }
    }

    /// Drains the inbox; every runway request is answered with a clearance
    /// for one of this airport's runways, addressed back to the requester.
    /// No runway-occupancy tracking exists: two aircraft may be cleared for
    /// the same runway, an accepted race of the coordination protocol.
    pub fn tick(&mut self, _config: &Config) -> (r: Vec<(u128, PlaneEvent)>)
        requires
            old(self).wf(),
        ensures
            final(self).wf(),
            final(self).id == old(self).id,
            final(self).airport == old(self).airport,
            final(self).events@.len() == 0,
            r@.len() == old(self).events@.len(),
            forall|k: int|
                0 <= k < r@.len() ==> (#[trigger] r@[k]).0 == old(self).events@[k].from
                    && r@[k].1.from@ == old(self).id@ && r@[k].1.payload is ClearForLanding
                    && crate::plane::plane_event_wf(r@[k].1) && (exists|j: int|
                    0 <= j < old(self).airport.runways@.len() && r@[k].1.payload
                        == PlaneEventPayload::ClearForLanding(
                        #[trigger] old(self).airport.runways@[j],
                    )),
    {
        let ghost evs = self.events@;
        let mut send: Vec<(u128, PlaneEvent)> = Vec::new();
        let n = self.events.len();
        let mut i: usize = 0;
        while i < n
            invariant
                self.wf(),
                *self == *old(self),
                n == evs.len(),
                self.events@ == evs,
                0 <= i <= n,
                send@.len() == i,
                forall|k: int|
                    0 <= k < i ==> (#[trigger] send@[k]).0 == evs[k].from && send@[k].1.from@
                        == self.id@ && send@[k].1.payload is ClearForLanding
                        && crate::plane::plane_event_wf(send@[k].1) && (exists|j: int|
                        0 <= j < self.airport.runways@.len() && send@[k].1.payload
                            == PlaneEventPayload::ClearForLanding(
                            #[trigger] self.airport.runways@[j],
                        )),
            decreases n - i,
        {
            let ev_from = self.events[i].from;
            let pick = crate::rng::rand_index(self.airport.runways.len());
            let runway = self.airport.runways[pick].clone_rw();
            proof {
                assert(self.airport.runways@[pick as int].wf());
            }
            send.push(
                (
                    ev_from,
                    PlaneEvent {
                        from: clone_string(&self.id),
                        payload: PlaneEventPayload::ClearForLanding(runway),
                    },
                ),
            );
            proof {
                assert(send@[i as int].1.payload == PlaneEventPayload::ClearForLanding(
                    self.airport.runways@[pick as int],
                ));
            }
            i = i + 1;
        }
        self.events.clear();
        send
    }
}

} // verus!
