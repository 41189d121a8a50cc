//! The top-level engine: world data, configuration and the running state,
//! advanced one tick at a time.

use vstd::prelude::*;

use crate::config::Config;
use crate::state::{snapshot_bytes, state_wf, State};
use crate::world_data::WorldData;

verus! {

/// The whole simulation: immutable world, configuration, mutable state.
#[derive(Clone, Debug)]
pub struct Engine {
    pub world: WorldData,
    pub config: Config,
    pub state: State,
}

impl Engine {
    /// The engine is valid when its parts are.
    pub open spec fn wf(self) -> bool {
        self.world.wf() && self.config.wf() && state_wf(self.state)
    }

    /// A fresh engine over the given world: one airport per world airport,
    /// no aircraft.
    pub fn new(world: WorldData, config: Config) -> (r: Engine)
        requires
            world.wf(),
            config.wf(),
        ensures
            r.wf(),
            r.state.planes@.len() == 0,
            r.state.airports@.len() == world.airports@.len(),
    {
        let state = State::new(&world.airports);
        Engine { world, config, state }
    }

    /// One tick: the identifiers of retired aircraft and the positional
    /// snapshot of the active ones.
    pub fn tick(&mut self) -> (r: (Vec<u128>, Vec<u8>))
        requires
            old(self).wf(),
        ensures
            final(self).wf(),
            final(self).world == old(self).world,
            final(self).config == old(self).config,
            r.1@ == snapshot_bytes(
                final(self).state.planes@,
                final(self).state.planes@.len() as int,
            ),
            final(self).state.airports@.len() == old(self).state.airports@.len(),
            final(self).state.planes@.len() <= old(self).state.planes@.len() + 1,
            old(self).config.plane_spawn_chance == 0 ==> final(self).state.planes@.len() <= old(self).state.planes@.len(),
            forall|i: int|
                0 <= i < final(self).state.airports@.len() ==> (#[trigger] final(self).state.airports@[i]).events@.len() == 0,
            exists|
                ticked: Seq<crate::plane::Plane>,
                flags: Seq<bool>,
                answers: Seq<(u128, crate::plane::PlaneEvent)>,
            |
                #[trigger] crate::state::tick_outcome(
                    old(self).state.planes@,
                    ticked,
                    flags,
                    r.0@,
                    final(self).state.planes@,
                    answers,
                    final(self).state.airports@,
                    old(self).world,
                    old(self).config,
                ),
    {
        self.state.tick(&self.config, &self.world)
    }
}

} // verus!
