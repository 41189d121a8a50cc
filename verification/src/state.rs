//! The tick orchestrator: owns all aircraft and airports, advances them,
//! routes events between them, retires finished aircraft and spawns new
//! traffic.

use vstd::prelude::*;

use crate::airport::Airport;
use crate::config::{Config, CHANCE_SCALE};
use crate::plane::{clone_string, AirportEvent, PhaseData, Plane, PlaneEvent};
use crate::world_data::{AirportData, Flight, WorldData};

verus! {

/// All live aircraft and airports of the simulation.
#[derive(Clone, Debug)]
pub struct State {
    pub planes: Vec<Plane>,
    pub airports: Vec<Airport>,
}

/// Every aircraft and airport of the state is valid.
pub open spec fn state_wf(s: State) -> bool {
    &&& forall|i: int| 0 <= i < s.planes@.len() ==> (#[trigger] s.planes@[i]).wf()
    &&& forall|i: int| 0 <= i < s.airports@.len() ==> (#[trigger] s.airports@[i]).wf()
}

/// The flat positional snapshot of one aircraft: identifier bytes followed
/// by little-endian eight-byte words for x, y, z, heading and both velocity
/// components.
pub open spec fn plane_record(p: Plane) -> Seq<u8> {
    vstd::bytes::spec_u128_to_le_bytes(p.id) + vstd::bytes::spec_u64_to_le_bytes(
        p.pos.pos_ang.0.x as u64,
    ) + vstd::bytes::spec_u64_to_le_bytes(p.pos.pos_ang.0.y as u64)
        + vstd::bytes::spec_u64_to_le_bytes(p.pos.pos_ang.0.z as u64)
        + vstd::bytes::spec_u64_to_le_bytes(p.pos.pos_ang.1.0 as u64)
        + vstd::bytes::spec_u64_to_le_bytes(p.pos.kinematics.v.x as u64)
        + vstd::bytes::spec_u64_to_le_bytes(p.pos.kinematics.v.y as u64)
}

/// Concatenated snapshot of a prefix of the aircraft list.
pub open spec fn snapshot_bytes(planes: Seq<Plane>, n: int) -> Seq<u8>
    decreases n,
{
    if n <= 0 {
        Seq::empty()
    } else {
        snapshot_bytes(planes, n - 1) + plane_record(planes[n - 1])
    }
}

/// The identifier occurs in the list.
pub open spec fn in_ids(ids: Seq<u128>, id: u128) -> bool {
    exists|i: int| 0 <= i < ids.len() && ids[i] == id
}

/// The identifiers of the flagged aircraft, in order.
pub open spec fn flagged_ids(ticked: Seq<Plane>, flags: Seq<bool>) -> Seq<u128>
    decreases ticked.len(),
{
    if ticked.len() == 0 || flags.len() == 0 {
        Seq::empty()
    } else {
        flagged_ids(ticked.drop_last(), flags.drop_last()) + (if flags.last() {
            seq![ticked.last().id]
        } else {
            Seq::empty()
        })
    }
}

/// The aircraft that stay after retirement: those whose identifier is not
/// among the retired ones, in their original order.
pub open spec fn kept_of(planes: Seq<Plane>, ids: Seq<u128>) -> Seq<Plane>
    decreases planes.len(),
{
    if planes.len() == 0 {
        Seq::empty()
    } else {
        kept_of(planes.drop_last(), ids) + (if !in_ids(ids, planes.last().id) {
            seq![planes.last()]
        } else {
            Seq::empty()
        })
    }
}

/// Retirement keeps only aircraft from the ticked list, so their drained
/// inboxes stay drained.
proof fn lemma_kept_events_empty(planes: Seq<Plane>, ids: Seq<u128>)
    requires
        forall|k: int| 0 <= k < planes.len() ==> (#[trigger] planes[k]).events@.len() == 0,
    ensures
        forall|j: int|
            0 <= j < kept_of(planes, ids).len() ==> (#[trigger] kept_of(planes, ids)[j]).events@.len() == 0,
    decreases planes.len(),
{
    if planes.len() > 0 {
        assert(forall|k: int|
            0 <= k < planes.len() - 1 ==> planes.drop_last()[k] == #[trigger] planes[k]);
        lemma_kept_events_empty(planes.drop_last(), ids);
        let prefix = kept_of(planes.drop_last(), ids);
        assert(forall|j: int|
            0 <= j < kept_of(planes, ids).len() ==> (#[trigger] kept_of(planes, ids)[j]).events@.len()
                == 0) by {
            assert(forall|j: int|
                0 <= j < prefix.len() ==> #[trigger] kept_of(planes, ids)[j] == prefix[j]);
            assert(planes.last().events@.len() == 0) by {
                assert(planes[planes.len() - 1].events@.len() == 0);
            }
        }
    }
}

/// Two aircraft states that differ at most in their inbound event queue.
pub open spec fn same_but_events(a: Plane, b: Plane) -> bool {
    &&& b.id == a.id
    &&& b.pos == a.pos
    &&& b.model == a.model
    &&& b.flight == a.flight
    &&& b.phase == a.phase
    &&& b.start_time == a.start_time
}

/// The identifiers of the aircraft, in order.
pub open spec fn ids_of(planes: Seq<Plane>) -> Seq<u128> {
    Seq::new(planes.len(), |i: int| planes[i].id)
}

/// `j` is the position of the first identifier equal to `id`.
pub open spec fn first_with_id(ids: Seq<u128>, id: u128, j: int) -> bool {
    &&& 0 <= j < ids.len()
    &&& ids[j] == id
    &&& forall|k: int| 0 <= k < j ==> ids[k] != id
}

/// The events the aircraft at position `j` receives out of the airports'
/// answers: every answer addressed to its identifier, in order, each
/// reaching only the first aircraft carrying the identifier; answers to
/// unknown identifiers reach nobody.
pub open spec fn inbox_of(
    answers: Seq<(u128, PlaneEvent)>,
    ids: Seq<u128>,
    j: int,
) -> Seq<PlaneEvent>
    decreases answers.len(),
{
    if answers.len() == 0 {
        Seq::empty()
    } else {
        inbox_of(answers.drop_last(), ids, j) + (if first_with_id(ids, answers.last().0, j) {
            seq![answers.last().1]
        } else {
            Seq::empty()
        })
    }
}

/// A freshly spawned aircraft's provenance: its model is one of the world's,
/// its flight comes from the fixed schedule when one exists (else its
/// endpoints are world airport codes), and it takes off from a runway of its
/// origin airport.
pub open spec fn spawned_from(p: Plane, wd: WorldData) -> bool {
    &&& p.wf()
    &&& p.phase is Takeoff
    &&& p.events@.len() == 0
    &&& exists|mi: int|
        0 <= mi < wd.planes@.len() && p.model.motion == (#[trigger] wd.planes@[mi]).motion
            && p.model.id@ == wd.planes@[mi].id@
    &&& (wd.flights matches Some(fs) ==> exists|fi: int|
        0 <= fi < fs@.len() && p.flight.from@ == (#[trigger] fs@[fi]).from@ && p.flight.to@
            == fs@[fi].to@)
    &&& (wd.flights is None ==> (exists|ai: int|
        0 <= ai < wd.airports@.len() && p.flight.from@ == (#[trigger] wd.airports@[ai]).code@)
        && (exists|bi: int|
        0 <= bi < wd.airports@.len() && p.flight.to@ == (#[trigger] wd.airports@[bi]).code@))
    &&& (p.phase matches PhaseData::Takeoff { runway } ==> exists|oi: int|
        0 <= oi < wd.airports@.len() && (#[trigger] wd.airports@[oi]).code@ == p.flight.from@
            && exists|ri: int|
            0 <= ri < wd.airports@[oi].runways@.len() && runway == (
            #[trigger] wd.airports@[oi].runways@[ri]))
}

/// What one orchestrator tick guarantees of the aircraft list: every
/// aircraft was advanced by its own tick, the reported identifiers are
/// exactly those of the aircraft whose tick finished them, those aircraft
/// leave, and the rest stay in order — changed afterwards only by events
/// delivered to their inboxes, plus at most one spawned aircraft at the
/// tail.
pub open spec fn tick_outcome(
    pre_planes: Seq<Plane>,
    ticked: Seq<Plane>,
    flags: Seq<bool>,
    removed: Seq<u128>,
    post_planes: Seq<Plane>,
    answers: Seq<(u128, PlaneEvent)>,
    airports: Seq<Airport>,
    wd: WorldData,
    config: Config,
) -> bool {
    let kept = kept_of(ticked, removed);
    &&& ticked.len() == pre_planes.len()
    &&& flags.len() == ticked.len()
    &&& (forall|k: int|
        0 <= k < ticked.len() ==> crate::plane::plane_ticked(
            pre_planes[k],
            #[trigger] ticked[k],
            flags[k],
            config,
        ))
    &&& removed == flagged_ids(ticked, flags)
    &&& kept.len() <= post_planes.len() <= kept.len() + 1
    &&& (forall|j: int|
        0 <= j < kept.len() ==> same_but_events(#[trigger] kept[j], post_planes[j]))
    // The airports' answers of this tick are delivered: each surviving
    // aircraft's inbox holds exactly the answers addressed to it, in order.
    &&& (forall|j: int|
        0 <= j < kept.len() ==> (#[trigger] post_planes[j]).events@ == inbox_of(
            answers,
            ids_of(kept),
            j,
        ))
    // Every answer is a landing clearance sent by one of the airports.
    &&& (forall|k: int|
        0 <= k < answers.len() ==> crate::plane::plane_event_wf((#[trigger] answers[k]).1)
            && answers[k].1.payload is ClearForLanding && (exists|a: int|
            0 <= a < airports.len() && answers[k].1.from@ == (#[trigger] airports[a]).id@))
    // Any aircraft beyond the survivors is the one spawn of this tick, with
    // its provenance in the world data.
    &&& (post_planes.len() > kept.len() ==> spawned_from(post_planes.last(), wd))
    // A runway request of a cruising aircraft with an exhausted plan is
    // answered within the same tick, whenever its destination is among the
    // airports.
    &&& (forall|k: int|
        0 <= k < pre_planes.len() && crate::plane::cruise_idle(#[trigger] pre_planes[k]) && (
        exists|a: int|
            0 <= a < airports.len() && (#[trigger] airports[a]).id@ == pre_planes[k].flight.to@)
            ==> exists|q: int|
            0 <= q < answers.len() && (#[trigger] answers[q]).0 == pre_planes[k].id
                && answers[q].1.from@ == pre_planes[k].flight.to@)
}

impl State {
    /// A state over the given airports, with no aircraft.
    pub fn new(airports: &Vec<AirportData>) -> (r: State)
        requires
            forall|i: int| 0 <= i < airports@.len() ==> (#[trigger] airports@[i]).wf(),
        ensures
            state_wf(r),
            r.planes@.len() == 0,
            r.airports@.len() == airports@.len(),
            forall|i: int|
                0 <= i < airports@.len() ==> (#[trigger] r.airports@[i]).id@ == airports@[i].code@,
    {
        let mut out: Vec<Airport> = Vec::new();
        let mut i: usize = 0;
        while i < airports.len()
            invariant
                forall|k: int| 0 <= k < airports@.len() ==> (#[trigger] airports@[k]).wf(),
                0 <= i <= airports@.len(),
                out@.len() == i,
                forall|k: int| 0 <= k < i ==> (#[trigger] out@[k]).wf(),
                forall|k: int| 0 <= k < i ==> (#[trigger] out@[k]).id@ == airports@[k].code@,
            decreases airports@.len() - i,
        {
            out.push(Airport::new(airports[i].clone_ad()));
            i = i + 1;
        }
        State { planes: Vec::new(), airports: out }
    }

    /// The first aircraft carrying the identifier, if any.
    pub fn plane(&self, id: &u128) -> (r: Option<&Plane>)
        ensures
            match r {
                Some(p) => exists|i: int|
                    0 <= i < self.planes@.len() && *p == self.planes@[i] && p.id == *id,
                None => forall|i: int|
                    0 <= i < self.planes@.len() ==> (#[trigger] self.planes@[i]).id != *id,
            },
    {
        let mut i: usize = 0;
        while i < self.planes.len()
            invariant
                0 <= i <= self.planes@.len(),
                forall|j: int| 0 <= j < i ==> (#[trigger] self.planes@[j]).id != *id,
            decreases self.planes@.len() - i,
        {
            if self.planes[i].id == *id {
                return Some(&self.planes[i]);
            }
            i = i + 1;
        }
        None
    }

    /// The first airport carrying the identifier, if any.
    pub fn airport(&self, id: &String) -> (r: Option<&Airport>)
        ensures
            match r {
                Some(a) => exists|i: int|
                    0 <= i < self.airports@.len() && *a == self.airports@[i] && a.id@ == id@,
                None => forall|i: int|
                    0 <= i < self.airports@.len() ==> (#[trigger] self.airports@[i]).id@ != id@,
            },
    {
        let mut i: usize = 0;
        while i < self.airports.len()
            invariant
                0 <= i <= self.airports@.len(),
                forall|j: int| 0 <= j < i ==> (#[trigger] self.airports@[j]).id@ != id@,
            decreases self.airports@.len() - i,
        {
            if self.airports[i].id == *id {
                return Some(&self.airports[i]);
            }
            i = i + 1;
        }
        None
    }

    /// Index of the first airport carrying the identifier.
    fn airport_idx(&self, id: &String) -> (r: Option<usize>)
        ensures
            r matches Some(i) ==> i < self.airports@.len() && self.airports@[i as int].id@
                == id@ && forall|j: int|
                0 <= j < i ==> (#[trigger] self.airports@[j]).id@ != id@,
            r is None ==> forall|j: int|
                0 <= j < self.airports@.len() ==> (#[trigger] self.airports@[j]).id@ != id@,
    {
        let mut i: usize = 0;
        while i < self.airports.len()
            invariant
                0 <= i <= self.airports@.len(),
                forall|j: int| 0 <= j < i ==> (#[trigger] self.airports@[j]).id@ != id@,
            decreases self.airports@.len() - i,
        {
            if self.airports[i].id == *id {
                return Some(i);
            }
            i = i + 1;
        }
        None
    }

    /// Index of the first aircraft carrying the identifier.
    fn plane_idx(&self, id: u128) -> (r: Option<usize>)
        ensures
            r matches Some(i) ==> i < self.planes@.len() && self.planes@[i as int].id == id
                && forall|j: int| 0 <= j < i ==> (#[trigger] self.planes@[j]).id != id,
            r is None ==> forall|j: int|
                0 <= j < self.planes@.len() ==> (#[trigger] self.planes@[j]).id != id,
    {
        let mut i: usize = 0;
        while i < self.planes.len()
            invariant
                0 <= i <= self.planes@.len(),
                forall|j: int| 0 <= j < i ==> (#[trigger] self.planes@[j]).id != id,
            decreases self.planes@.len() - i,
        {
            if self.planes[i].id == id {
                return Some(i);
            }
            i = i + 1;
        }
        None
    }

    /// One tick of the whole simulation, in order: advance every aircraft,
    /// deliver their events to airports, retire finished aircraft, advance
    /// every airport, deliver their events to the remaining aircraft, maybe
    /// spawn new traffic, and report the retired identifiers together with a
    /// flat positional snapshot.
    #[verifier::rlimit(100)]
    #[verifier::spinoff_prover]
    pub fn tick(&mut self, config: &Config, wd: &WorldData) -> (r: (Vec<u128>, Vec<u8>))
        requires
            state_wf(*old(self)),
            config.wf(),
            wd.wf(),
        ensures
            state_wf(*final(self)),
            final(self).airports@.len() == old(self).airports@.len(),
            r.1@ == snapshot_bytes(final(self).planes@, final(self).planes@.len() as int),
            // At most one aircraft spawns and nothing else joins; retiring
            // only shrinks the list.
            final(self).planes@.len() <= old(self).planes@.len() + 1,
            r.0@.len() <= old(self).planes@.len(),
            config.plane_spawn_chance == 0 ==> final(self).planes@.len() <= old(self).planes@.len(),
            // Every airport inbox is answered and drained within the tick.
            forall|i: int|
                0 <= i < final(self).airports@.len() ==> (#[trigger] final(self).airports@[i]).events@.len() == 0,
            // The aircraft cap is never exceeded by spawning.
            config.max_planes matches Some(m) ==> final(self).planes@.len() <= (
            if old(self).planes@.len() > m {
                old(self).planes@.len() as int
            } else {
                m as int
            }),
            // Some per-aircraft tick outcomes, removal verdicts and airport
            // answers explain the new list and its inboxes exactly.
            exists|ticked: Seq<Plane>, flags: Seq<bool>, answers: Seq<(u128, PlaneEvent)>|
                #[trigger] tick_outcome(
                    old(self).planes@,
                    ticked,
                    flags,
                    r.0@,
                    final(self).planes@,
                    answers,
                    final(self).airports@,
                    *wd,
                    *config,
                ),
    {
        let mut remove_list: Vec<u128> = Vec::new();
        let mut airport_sends: Vec<(String, AirportEvent)> = Vec::new();
        let ghost mut ticked: Seq<Plane> = Seq::empty();
        let ghost mut flags: Seq<bool> = Seq::empty();
        let mut i: usize = 0;
        proof {
            assert(self.planes@ =~= ticked + old(self).planes@.subrange(
                0,
                old(self).planes@.len() as int,
            ));
            assert(remove_list@ =~= flagged_ids(ticked, flags));
        }
        while i < self.planes.len()
            invariant
                state_wf(*self),
                config.wf(),
                self.airports@.len() == old(self).airports@.len(),
                0 <= i <= self.planes@.len(),
                self.planes@.len() == old(self).planes@.len(),
                remove_list@.len() <= i,
                ticked.len() == i as int,
                flags.len() == i as int,
                self.planes@ == ticked + old(self).planes@.subrange(
                    i as int,
                    old(self).planes@.len() as int,
                ),
                forall|kk: int|
                    0 <= kk < i ==> crate::plane::plane_ticked(
                        old(self).planes@[kk],
                        #[trigger] ticked[kk],
                        flags[kk],
                        *config,
                    ),
                remove_list@ == flagged_ids(ticked, flags),
                forall|kk: int|
                    0 <= kk < i && crate::plane::cruise_idle(#[trigger] old(self).planes@[kk])
                        ==> exists|e: int|
                        0 <= e < airport_sends@.len() && (#[trigger] airport_sends@[e]).0@
                            == old(self).planes@[kk].flight.to@ && airport_sends@[e].1.from
                            == old(self).planes@[kk].id
                            && airport_sends@[e].1.payload is RequestRunway,
            decreases self.planes@.len() - i,
        {
            let ghost pre = self.planes@;
            let ghost pre_ticked = ticked;
            let ghost pre_flags = flags;
            let ghost pre_list = remove_list@;
            proof {
                assert(pre[i as int] == old(self).planes@[i as int]);
            }
            let (remove, send) = (&mut self.planes[i]).tick(config);
            proof {
                assert(state_wf(*self)) by {
                    assert(forall|k: int|
                        0 <= k < pre.len() && k != i ==> #[trigger] self.planes@[k] == pre[k]);
                    assert(self.planes@[i as int].wf());
                }
            }
            if remove {
                remove_list.push(self.planes[i].id);
            }
            proof {
                ticked = pre_ticked.push(self.planes@[i as int]);
                flags = pre_flags.push(remove);
                assert(ticked.drop_last() =~= pre_ticked);
                assert(flags.drop_last() =~= pre_flags);
                assert(remove_list@ == flagged_ids(ticked, flags)) by {
                    if remove {
                        assert(remove_list@ =~= pre_list + seq![ticked.last().id]);
                    } else {
                        assert(flagged_ids(ticked, flags) =~= pre_list);
                    }
                }
                assert(self.planes@ =~= ticked + old(self).planes@.subrange(
                    i as int + 1,
                    old(self).planes@.len() as int,
                ));
                assert(crate::plane::plane_ticked(
                    old(self).planes@[i as int],
                    ticked[i as int],
                    flags[i as int],
                    *config,
                ));
                assert(forall|kk: int|
                    0 <= kk < i ==> crate::plane::plane_ticked(
                        old(self).planes@[kk],
                        #[trigger] ticked[kk],
                        flags[kk],
                        *config,
                    ));
            }
            let mut k: usize = 0;
            let ghost pre_as = airport_sends@;
            let mut send2 = send;
            while k < send2.len()
                invariant
                    0 <= k <= send2@.len(),
                    airport_sends@.len() == pre_as.len() + k,
                    forall|j: int| 0 <= j < pre_as.len() ==> #[trigger] airport_sends@[j]
                        == pre_as[j],
                    forall|j: int|
                        pre_as.len() <= j < airport_sends@.len()
                            ==> (#[trigger] airport_sends@[j]).0@ == send2@[j - pre_as.len()].0@
                            && airport_sends@[j].1 == send2@[j - pre_as.len()].1,
                decreases send2@.len() - k,
            {
                let code = clone_string(&send2[k].0);
                let ev = AirportEvent { from: send2[k].1.from, payload: send2[k].1.payload };
                airport_sends.push((code, ev));
                k = k + 1;
            }
            proof {
                if crate::plane::cruise_idle(old(self).planes@[i as int]) {
                    assert(pre[i as int] == old(self).planes@[i as int]);
                    assert(pre[i as int].phase is Cruise);
                    assert(pre[i as int].pos.planner.route@.len() == 0);
                    assert(pre[i as int].pos.planner.instructions@.len() == 0);
                    assert(send2@.len() == 1);
                    assert(send2@[0].0@ == old(self).planes@[i as int].flight.to@);
                    assert(send2@[0].1.from == old(self).planes@[i as int].id);
                    assert(send2@[0].1.payload is RequestRunway);
                    assert(airport_sends@.len() == pre_as.len() + 1);
                    assert((#[trigger] airport_sends@[pre_as.len() as int]).0@ == old(
                        self,
                    ).planes@[i as int].flight.to@ && airport_sends@[pre_as.len() as int].1.from
                        == old(self).planes@[i as int].id && airport_sends@[pre_as.len() as int].1.payload is RequestRunway);
                }
                assert forall|kk: int|
                    0 <= kk < i && crate::plane::cruise_idle(
                        #[trigger] old(self).planes@[kk],
                    ) implies exists|e: int|
                    0 <= e < airport_sends@.len() && (#[trigger] airport_sends@[e]).0@ == old(
                        self,
                    ).planes@[kk].flight.to@ && airport_sends@[e].1.from == old(
                        self,
                    ).planes@[kk].id && airport_sends@[e].1.payload is RequestRunway by {
                    let e0 = choose|e: int|
                        0 <= e < pre_as.len() && (#[trigger] pre_as[e]).0@ == old(
                            self,
                        ).planes@[kk].flight.to@ && pre_as[e].1.from == old(self).planes@[kk].id
                            && pre_as[e].1.payload is RequestRunway;
                    assert(airport_sends@[e0] == pre_as[e0]);
                }
            }
            i = i + 1;
        }
        // Deliver aircraft events into airport inboxes.
        let mut k: usize = 0;
        let ghost as_seq = airport_sends@;
        let ghost aids = Seq::new(self.airports@.len(), |a: int| self.airports@[a].id@);
        proof {
            assert(self.planes@ =~= ticked);
        }
        while k < airport_sends.len()
            invariant
                state_wf(*self),
                self.airports@.len() == old(self).airports@.len(),
                0 <= k <= airport_sends@.len(),
                self.planes@.len() == old(self).planes@.len(),
                self.planes@ == ticked,
                airport_sends@ == as_seq,
                aids.len() == self.airports@.len(),
                forall|a: int|
                    0 <= a < aids.len() ==> (#[trigger] self.airports@[a]).id@ == aids[a],
                forall|e: int|
                    0 <= e < k && (exists|a: int|
                        0 <= a < aids.len() && aids[a] == (#[trigger] as_seq[e]).0@)
                        ==> exists|a: int|
                        0 <= a < self.airports@.len() && (#[trigger] self.airports@[a]).id@
                            == as_seq[e].0@ && (exists|idx: int|
                            0 <= idx < self.airports@[a].events@.len()
                                && self.airports@[a].events@[idx].from == as_seq[e].1.from
                                && self.airports@[a].events@[idx].payload
                                == as_seq[e].1.payload),
            decreases airport_sends@.len() - k,
        {
            let ghost pre_airports = self.airports@;
            let ghost mut pushed: bool = false;
            let ghost mut pai: int = 0;
            let code = clone_string(&airport_sends[k].0);
            let ev = AirportEvent {
                from: airport_sends[k].1.from,
                payload: airport_sends[k].1.payload,
            };
            match self.airport_idx(&code) {
                Some(ai) => {
                    let ghost pre = self.airports@;
                    proof {
                        pushed = true;
                        pai = ai as int;
                    }
                    (&mut self.airports[ai]).events.push_back(ev);
                    proof {
                        assert(state_wf(*self)) by {
                            assert(forall|j: int|
                                0 <= j < pre.len() && j != ai ==> #[trigger] self.airports@[j]
                                    == pre[j]);
                            assert(self.airports@[ai as int].wf()) by {
                                assert(pre[ai as int].wf());
                            }
                        }
                        assert(forall|j: int|
                            0 <= j < pre.len() && j != ai ==> #[trigger] self.airports@[j]
                                == pre[j]);
                        assert(self.airports@[ai as int].id == pre[ai as int].id);
                        assert(forall|idx: int|
                            0 <= idx < pre[ai as int].events@.len()
                                ==> #[trigger] self.airports@[ai as int].events@[idx]
                                == pre[ai as int].events@[idx]);
                        assert(self.airports@[ai as int].events@[pre[ai as int].events@.len() as int]
                            == ev);
                        assert(self.airports@[ai as int].id@ == as_seq[k as int].0@);
                    }
                },
                None => {
                    proof {
                        assert(code@ == as_seq[k as int].0@);
                        assert forall|a: int|
                            0 <= a < aids.len() implies aids[a] != as_seq[k as int].0@ by {
                            assert(self.airports@[a].id@ != code@);
                            assert(aids[a] == self.airports@[a].id@);
                        }
                    }
                },
            }
            proof {
                assert forall|e: int|
                    0 <= e < k + 1 && (exists|a: int|
                        0 <= a < aids.len() && aids[a] == (#[trigger] as_seq[e]).0@) implies
                    exists|a: int|
                        0 <= a < self.airports@.len() && (#[trigger] self.airports@[a]).id@
                            == as_seq[e].0@ && (exists|idx: int|
                            0 <= idx < self.airports@[a].events@.len()
                                && self.airports@[a].events@[idx].from == as_seq[e].1.from
                                && self.airports@[a].events@[idx].payload
                                == as_seq[e].1.payload) by {
                    if e == k {
                        assert(pushed);
                    } else {
                        let a0 = choose|a: int|
                            0 <= a < pre_airports.len() && (#[trigger] pre_airports[a]).id@
                                == as_seq[e].0@ && (exists|idx: int|
                                0 <= idx < pre_airports[a].events@.len()
                                    && pre_airports[a].events@[idx].from == as_seq[e].1.from
                                    && pre_airports[a].events@[idx].payload
                                    == as_seq[e].1.payload);
                        let idx0 = choose|idx: int|
                            0 <= idx < pre_airports[a0].events@.len()
                                && pre_airports[a0].events@[idx].from == as_seq[e].1.from
                                && pre_airports[a0].events@[idx].payload == as_seq[e].1.payload;
                        if pushed && a0 == pai {
                            assert(self.airports@[a0].events@[idx0].from == as_seq[e].1.from
                                && self.airports@[a0].events@[idx0].payload
                                == as_seq[e].1.payload);
                        } else {
                            assert(self.airports@[a0] == pre_airports[a0]);
                        }
                    }
                }
            }
            k = k + 1;
        }
        // Retire the aircraft flagged for removal.
        let mut kept: Vec<Plane> = Vec::new();
        let ghost r0 = remove_list@;
        proof {
            assert(kept_of(ticked, r0) =~= kept_of(self.planes@, r0) + kept@.reverse());
        }
        loop
            invariant
                state_wf(*self),
                self.airports@.len() == old(self).airports@.len(),
                forall|j: int| 0 <= j < kept@.len() ==> (#[trigger] kept@[j]).wf(),
                kept@.len() + self.planes@.len() <= old(self).planes@.len(),
                remove_list@ == r0,
                kept_of(ticked, r0) == kept_of(self.planes@, r0) + kept@.reverse(),
                aids.len() == self.airports@.len(),
                forall|a: int|
                    0 <= a < aids.len() ==> (#[trigger] self.airports@[a]).id@ == aids[a],
                forall|e: int|
                    0 <= e < as_seq.len() && (exists|a: int|
                        0 <= a < aids.len() && aids[a] == (#[trigger] as_seq[e]).0@)
                        ==> exists|a: int|
                        0 <= a < self.airports@.len() && (#[trigger] self.airports@[a]).id@
                            == as_seq[e].0@ && (exists|idx: int|
                            0 <= idx < self.airports@[a].events@.len()
                                && self.airports@[a].events@[idx].from == as_seq[e].1.from
                                && self.airports@[a].events@[idx].payload
                                == as_seq[e].1.payload),
            ensures
                self.planes@.len() == 0,
                state_wf(*self),
                self.airports@.len() == old(self).airports@.len(),
                forall|j: int| 0 <= j < kept@.len() ==> (#[trigger] kept@[j]).wf(),
                kept@.len() <= old(self).planes@.len(),
                remove_list@ == r0,
                kept_of(ticked, r0) == kept@.reverse(),
                aids.len() == self.airports@.len(),
                forall|a: int|
                    0 <= a < aids.len() ==> (#[trigger] self.airports@[a]).id@ == aids[a],
                forall|e: int|
                    0 <= e < as_seq.len() && (exists|a: int|
                        0 <= a < aids.len() && aids[a] == (#[trigger] as_seq[e]).0@)
                        ==> exists|a: int|
                        0 <= a < self.airports@.len() && (#[trigger] self.airports@[a]).id@
                            == as_seq[e].0@ && (exists|idx: int|
                            0 <= idx < self.airports@[a].events@.len()
                                && self.airports@[a].events@[idx].from == as_seq[e].1.from
                                && self.airports@[a].events@[idx].payload
                                == as_seq[e].1.payload),
            decreases self.planes@.len(),
        {
            let ghost pre = self.planes@;
            let ghost pre_kept = kept@;
            let p = match self.planes.pop() {
                Some(p) => p,
                None => {
                    proof {
                        assert(kept_of(self.planes@, r0) =~= Seq::empty());
                    }
                    break ;
                },
            };
            proof {
                assert(p.wf()) by {
                    assert(pre[pre.len() - 1].wf());
                }
                assert(state_wf(*self)) by {
                    assert(forall|j: int|
                        0 <= j < self.planes@.len() ==> #[trigger] self.planes@[j] == pre[j]);
                }
                assert(self.planes@ =~= pre.drop_last());
                assert(p == pre.last());
            }
            if !contains_id(&remove_list, p.id) {
                kept.push(p);
                proof {
                    assert(!in_ids(r0, p.id));
                    assert(kept@.reverse() =~= seq![p] + pre_kept.reverse());
                    assert(kept_of(pre, r0) =~= kept_of(pre.drop_last(), r0) + seq![p]);
                    assert(kept_of(pre.drop_last(), r0) + (seq![p] + pre_kept.reverse())
                        =~= (kept_of(pre.drop_last(), r0) + seq![p]) + pre_kept.reverse());
                }
            } else {
                proof {
                    assert(in_ids(r0, p.id));
                    assert(kept_of(pre, r0) =~= kept_of(pre.drop_last(), r0));
                }
            }
        }
        // Restore the earlier ordering of the aircraft list.
        let mut planes2: Vec<Plane> = Vec::new();
        proof {
            assert(planes2@ + kept@.reverse() =~= kept_of(ticked, r0));
        }
        loop
            invariant
                forall|j: int| 0 <= j < kept@.len() ==> (#[trigger] kept@[j]).wf(),
                forall|j: int| 0 <= j < planes2@.len() ==> (#[trigger] planes2@[j]).wf(),
                kept@.len() + planes2@.len() <= old(self).planes@.len(),
                planes2@ + kept@.reverse() == kept_of(ticked, r0),
            ensures
                kept@.len() == 0,
                forall|j: int| 0 <= j < planes2@.len() ==> (#[trigger] planes2@[j]).wf(),
                planes2@.len() <= old(self).planes@.len(),
                planes2@ == kept_of(ticked, r0),
            decreases kept@.len(),
        {
            let ghost pre = kept@;
            let ghost pre2 = planes2@;
            let p = match kept.pop() {
                Some(p) => p,
                None => {
                    proof {
                        assert(kept@.reverse() =~= Seq::empty());
                        assert(planes2@ =~= planes2@ + kept@.reverse());
                    }
                    break ;
                },
            };
            proof {
                assert(p.wf()) by {
                    assert(pre[pre.len() - 1].wf());
                }
                assert(forall|j: int|
                    0 <= j < kept@.len() ==> #[trigger] kept@[j] == pre[j]);
            }
            planes2.push(p);
            proof {
                assert(kept@ =~= pre.drop_last());
                assert(pre.reverse() =~= seq![p] + kept@.reverse());
                assert(planes2@ + kept@.reverse() =~= pre2 + (seq![p] + kept@.reverse()));
                assert(pre2 + (seq![p] + kept@.reverse()) =~= (pre2 + seq![p]) + kept@.reverse());
            }
        }
        self.planes = planes2;
        let ghost kept_seq = kept_of(ticked, r0);
        let ghost ids = ids_of(kept_seq);
        let ghost mut answers: Seq<(u128, PlaneEvent)> = Seq::empty();
        proof {
            assert(self.planes@ =~= kept_seq);
            assert(forall|kk: int|
                0 <= kk < ticked.len() ==> (#[trigger] ticked[kk]).events@.len() == 0) by {
                assert(forall|kk: int|
                    0 <= kk < ticked.len() ==> crate::plane::plane_ticked(
                        old(self).planes@[kk],
                        #[trigger] ticked[kk],
                        flags[kk],
                        *config,
                    ));
            }
            lemma_kept_events_empty(ticked, r0);
            assert(forall|j: int|
                0 <= j < kept_seq.len() ==> (#[trigger] self.planes@[j]).events@ == inbox_of(
                    answers,
                    ids,
                    j,
                )) by {
                assert(forall|j: int|
                    0 <= j < kept_seq.len() ==> (#[trigger] self.planes@[j]).events@
                        =~= inbox_of(answers, ids, j));
            }
        }
        // Advance every airport and deliver clearances to aircraft.
        let mut ai: usize = 0;
        while ai < self.airports.len()
            invariant
                state_wf(*self),
                config.wf(),
                self.airports@.len() == old(self).airports@.len(),
                0 <= ai <= self.airports@.len(),
                self.planes@.len() <= old(self).planes@.len(),
                forall|j: int|
                    0 <= j < ai ==> (#[trigger] self.airports@[j]).events@.len() == 0,
                self.planes@.len() == kept_seq.len(),
                forall|j: int|
                    0 <= j < kept_seq.len() ==> same_but_events(
                        #[trigger] kept_seq[j],
                        self.planes@[j],
                    ),
                aids.len() == self.airports@.len(),
                forall|a: int|
                    0 <= a < aids.len() ==> (#[trigger] self.airports@[a]).id@ == aids[a],
                ids == ids_of(kept_seq),
                forall|j: int|
                    0 <= j < kept_seq.len() ==> (#[trigger] self.planes@[j]).events@ == inbox_of(
                        answers,
                        ids,
                        j,
                    ),
                forall|kk: int|
                    0 <= kk < answers.len() ==> crate::plane::plane_event_wf(
                        (#[trigger] answers[kk]).1,
                    ) && answers[kk].1.payload is ClearForLanding && (exists|a: int|
                        0 <= a < aids.len() && answers[kk].1.from@ == aids[a]),
                forall|e: int|
                    0 <= e < as_seq.len() && (exists|a: int|
                        0 <= a < aids.len() && aids[a] == (#[trigger] as_seq[e]).0@)
                        ==> (exists|a: int|
                        ai <= a < self.airports@.len() && (#[trigger] self.airports@[a]).id@
                            == as_seq[e].0@ && (exists|idx: int|
                            0 <= idx < self.airports@[a].events@.len()
                                && self.airports@[a].events@[idx].from == as_seq[e].1.from
                                && self.airports@[a].events@[idx].payload
                                == as_seq[e].1.payload)) || (exists|q: int|
                        0 <= q < answers.len() && (#[trigger] answers[q]).0 == as_seq[e].1.from
                            && answers[q].1.from@ == as_seq[e].0@),
            decreases self.airports@.len() - ai,
        {
            let ghost pre = self.airports@;
            let ghost pre_answers_outer = answers;
            let sends = (&mut self.airports[ai]).tick(config);
            proof {
                assert(state_wf(*self)) by {
                    assert(forall|k: int|
                        0 <= k < pre.len() && k != ai ==> #[trigger] self.airports@[k] == pre[k]);
                    assert(self.airports@[ai as int].wf());
                }
                assert(forall|a: int|
                    0 <= a < aids.len() ==> (#[trigger] self.airports@[a]).id@ == aids[a]) by {
                    assert(forall|k: int|
                        0 <= k < pre.len() && k != ai ==> #[trigger] self.airports@[k] == pre[k]);
                    assert(self.airports@[ai as int].id == pre[ai as int].id);
                }
            }
            let mut k: usize = 0;
            let ghost sends_seq = sends@;
            proof {
                assert forall|e: int|
                    0 <= e < as_seq.len() && (exists|a: int|
                        0 <= a < aids.len() && aids[a] == (#[trigger] as_seq[e]).0@) implies (
                    exists|a: int|
                        ai + 1 <= a < self.airports@.len() && (#[trigger] self.airports@[a]).id@
                            == as_seq[e].0@ && (exists|idx: int|
                            0 <= idx < self.airports@[a].events@.len()
                                && self.airports@[a].events@[idx].from == as_seq[e].1.from
                                && self.airports@[a].events@[idx].payload
                                == as_seq[e].1.payload)) || (exists|q: int|
                        0 <= q < answers.len() && (#[trigger] answers[q]).0 == as_seq[e].1.from
                            && answers[q].1.from@ == as_seq[e].0@) || (exists|idx: int|
                        0 <= idx < sends_seq.len() && (#[trigger] sends_seq[idx]).0
                            == as_seq[e].1.from && aids[ai as int] == as_seq[e].0@) by {
                    if exists|q: int|
                        0 <= q < pre_answers_outer.len() && (#[trigger] pre_answers_outer[q]).0
                            == as_seq[e].1.from && pre_answers_outer[q].1.from@
                            == as_seq[e].0@ {
                    } else {
                        let a0 = choose|a: int|
                            (ai as int) <= a < pre.len() && (#[trigger] pre[a]).id@
                                == as_seq[e].0@ && (exists|idx: int|
                                0 <= idx < pre[a].events@.len() && pre[a].events@[idx].from
                                    == as_seq[e].1.from && pre[a].events@[idx].payload
                                    == as_seq[e].1.payload);
                        let idx0 = choose|idx: int|
                            0 <= idx < pre[a0].events@.len() && pre[a0].events@[idx].from
                                == as_seq[e].1.from && pre[a0].events@[idx].payload
                                == as_seq[e].1.payload;
                        if a0 == ai {
                            assert(sends_seq[idx0].0 == pre[a0].events@[idx0].from);
                            assert(aids[ai as int] == pre[a0].id@);
                        } else {
                            assert(self.airports@[a0] == pre[a0]);
                        }
                    }
                }
            }
            let mut sends2 = sends;
            while k < sends2.len()
                invariant
                    state_wf(*self),
                    self.airports@.len() == old(self).airports@.len(),
                    0 <= k <= sends2@.len(),
                    sends2@ == sends_seq,
                    forall|j: int|
                        0 <= j < sends_seq.len() ==> crate::plane::plane_event_wf(
                            (#[trigger] sends_seq[j]).1,
                        ),
                    self.planes@.len() <= old(self).planes@.len(),
                    0 <= ai < self.airports@.len(),
                    forall|j: int|
                        0 <= j < ai + 1 ==> (#[trigger] self.airports@[j]).events@.len() == 0,
                    self.planes@.len() == kept_seq.len(),
                    forall|j: int|
                        0 <= j < kept_seq.len() ==> same_but_events(
                            #[trigger] kept_seq[j],
                            self.planes@[j],
                        ),
                    aids.len() == self.airports@.len(),
                    forall|a: int|
                        0 <= a < aids.len() ==> (#[trigger] self.airports@[a]).id@ == aids[a],
                    ids == ids_of(kept_seq),
                    forall|j: int|
                        0 <= j < sends_seq.len() ==> (#[trigger] sends_seq[j]).1.from@ == aids[
                            ai as int] && sends_seq[j].1.payload is ClearForLanding,
                    forall|j: int|
                        0 <= j < kept_seq.len() ==> (#[trigger] self.planes@[j]).events@
                            == inbox_of(answers, ids, j),
                    forall|kk: int|
                        0 <= kk < answers.len() ==> crate::plane::plane_event_wf(
                            (#[trigger] answers[kk]).1,
                        ) && answers[kk].1.payload is ClearForLanding && (exists|a: int|
                            0 <= a < aids.len() && answers[kk].1.from@ == aids[a]),
                    forall|j: int|
                        0 <= j < k ==> exists|q: int|
                            0 <= q < answers.len() && (#[trigger] answers[q]).0 == (
                            #[trigger] sends_seq[j]).0 && answers[q].1.from@ == aids[ai as int],
                    forall|e: int|
                        0 <= e < as_seq.len() && (exists|a: int|
                            0 <= a < aids.len() && aids[a] == (#[trigger] as_seq[e]).0@)
                            ==> (exists|a: int|
                            ai + 1 <= a < self.airports@.len()
                                && (#[trigger] self.airports@[a]).id@ == as_seq[e].0@ && (
                            exists|idx: int|
                                0 <= idx < self.airports@[a].events@.len()
                                    && self.airports@[a].events@[idx].from == as_seq[e].1.from
                                    && self.airports@[a].events@[idx].payload
                                    == as_seq[e].1.payload)) || (exists|q: int|
                            0 <= q < answers.len() && (#[trigger] answers[q]).0
                                == as_seq[e].1.from && answers[q].1.from@ == as_seq[e].0@) || (
                        exists|idx: int|
                            0 <= idx < sends_seq.len() && (#[trigger] sends_seq[idx]).0
                                == as_seq[e].1.from && aids[ai as int] == as_seq[e].0@),
                decreases sends2@.len() - k,
            {
                let pid = sends2[k].0;
                let ev = PlaneEvent {
                    from: clone_string(&sends2[k].1.from),
                    payload: clone_payload(&sends2[k].1.payload),
                };
                let ghost evg = ev;
                let ghost pre_answers = answers;
                proof {
                    assert(crate::plane::plane_event_wf(sends_seq[k as int].1));
                    assert(evg.from@ == aids[ai as int] && evg.payload is ClearForLanding
                        && crate::plane::plane_event_wf(evg)) by {
                        assert(sends_seq[k as int].1.from@ == aids[ai as int]);
                    }
                }
                match self.plane_idx(pid) {
                    Some(pi) => {
                        let ghost prep = self.planes@;
                        let ghost pre_events = self.planes@[pi as int].events@;
                        (&mut self.planes[pi]).events.push_back(ev);
                        proof {
                            assert(forall|j: int|
                                0 <= j < kept_seq.len() ==> same_but_events(
                                    #[trigger] kept_seq[j],
                                    self.planes@[j],
                                )) by {
                                assert(forall|j: int|
                                    0 <= j < prep.len() && j != pi ==> #[trigger] self.planes@[j]
                                        == prep[j]);
                                assert(same_but_events(
                                    kept_seq[pi as int],
                                    self.planes@[pi as int],
                                ));
                            }
                            answers = pre_answers.push((pid, evg));
                            assert(answers.drop_last() =~= pre_answers);
                            assert(answers[pre_answers.len() as int].0 == sends_seq[k as int].0
                                && answers[pre_answers.len() as int].1.from@ == aids[ai as int]);
                            assert(first_with_id(ids, pid, pi as int)) by {
                                assert(forall|j: int|
                                    0 <= j < ids.len() ==> ids[j] == (
                                    #[trigger] kept_seq[j]).id);
                                assert(forall|j: int|
                                    0 <= j < prep.len() ==> (#[trigger] prep[j]).id
                                        == kept_seq[j].id);
                            }
                            assert(forall|j: int|
                                0 <= j < kept_seq.len() ==> (#[trigger] self.planes@[j]).events@
                                    == inbox_of(answers, ids, j)) by {
                                assert(forall|j: int|
                                    0 <= j < prep.len() && j != pi ==> #[trigger] self.planes@[j]
                                        == prep[j]);
                                assert(forall|j: int|
                                    0 <= j < kept_seq.len() && j != pi ==> !first_with_id(
                                        ids,
                                        pid,
                                        j,
                                    ));
                                assert(self.planes@[pi as int].events@ =~= inbox_of(
                                    answers,
                                    ids,
                                    pi as int,
                                ));
                                assert(forall|j: int|
                                    0 <= j < kept_seq.len() && j != pi
                                        ==> (#[trigger] self.planes@[j]).events@ =~= inbox_of(
                                        answers,
                                        ids,
                                        j,
                                    ));
                            }
                            assert(state_wf(*self)) by {
                                assert(forall|j: int|
                                    0 <= j < prep.len() && j != pi ==> #[trigger] self.planes@[j]
                                        == prep[j]);
                                assert(self.planes@[pi as int].wf()) by {
                                    assert(prep[pi as int].wf());
                                    assert(crate::plane::plane_events_wf(
                                        self.planes@[pi as int].events@,
                                    )) by {
                                        assert(forall|j: int|
                                            0 <= j < pre_events.len()
                                                ==> #[trigger] self.planes@[pi as int].events@[j]
                                                == pre_events[j]);
                                        assert(crate::plane::plane_event_wf(
                                            self.planes@[pi as int].events@[pre_events.len() as int],
                                        ));
                                    }
                                }
                            }
                        }
                    },
                    None => {
                        proof {
                            answers = pre_answers.push((pid, evg));
                            assert(answers.drop_last() =~= pre_answers);
                            assert(answers[pre_answers.len() as int].0 == sends_seq[k as int].0
                                && answers[pre_answers.len() as int].1.from@ == aids[ai as int]);
                            assert(forall|j: int|
                                0 <= j < kept_seq.len() ==> !first_with_id(ids, pid, j)) by {
                                assert(forall|j: int|
                                    0 <= j < ids.len() ==> ids[j] == (
                                    #[trigger] kept_seq[j]).id);
                                assert(forall|j: int|
                                    0 <= j < self.planes@.len() ==> (
                                    #[trigger] self.planes@[j]).id == kept_seq[j].id);
                            }
                            assert(forall|j: int|
                                0 <= j < kept_seq.len() ==> (#[trigger] self.planes@[j]).events@
                                    == inbox_of(answers, ids, j)) by {
                                assert(forall|j: int|
                                    0 <= j < kept_seq.len()
                                        ==> (#[trigger] self.planes@[j]).events@ =~= inbox_of(
                                        answers,
                                        ids,
                                        j,
                                    ));
                            }
                        }
                    },
                }
                k = k + 1;
            }
            proof {
                assert forall|e: int|
                    0 <= e < as_seq.len() && (exists|a: int|
                        0 <= a < aids.len() && aids[a] == (#[trigger] as_seq[e]).0@) implies (
                    exists|a: int|
                        ai + 1 <= a < self.airports@.len() && (#[trigger] self.airports@[a]).id@
                            == as_seq[e].0@ && (exists|idx: int|
                            0 <= idx < self.airports@[a].events@.len()
                                && self.airports@[a].events@[idx].from == as_seq[e].1.from
                                && self.airports@[a].events@[idx].payload
                                == as_seq[e].1.payload)) || (exists|q: int|
                        0 <= q < answers.len() && (#[trigger] answers[q]).0 == as_seq[e].1.from
                            && answers[q].1.from@ == as_seq[e].0@) by {
                    if exists|idx: int|
                        0 <= idx < sends_seq.len() && (#[trigger] sends_seq[idx]).0
                            == as_seq[e].1.from && aids[ai as int] == as_seq[e].0@ {
                        let idx0 = choose|idx: int|
                            0 <= idx < sends_seq.len() && (#[trigger] sends_seq[idx]).0
                                == as_seq[e].1.from && aids[ai as int] == as_seq[e].0@;
                        let q0 = choose|q: int|
                            0 <= q < answers.len() && (#[trigger] answers[q]).0
                                == sends_seq[idx0].0 && answers[q].1.from@ == aids[ai as int];
                        assert(answers[q0].0 == as_seq[e].1.from && answers[q0].1.from@
                            == as_seq[e].0@);
                    }
                }
            }
            ai = ai + 1;
        }
        // Maybe spawn a new aircraft.
        let ghost pre_spawn = self.planes@;
        self.maybe_spawn(config, wd);
        let snapshot = self.coord_state();
        proof {
            assert(forall|j: int|
                0 <= j < pre_spawn.len() ==> #[trigger] self.planes@[j] == pre_spawn[j]) by {
                assert(self.planes@.subrange(0, pre_spawn.len() as int) == pre_spawn);
                assert(forall|j: int|
                    0 <= j < pre_spawn.len() ==> self.planes@.subrange(
                        0,
                        pre_spawn.len() as int,
                    )[j] == #[trigger] self.planes@[j]);
            }
            assert(forall|j: int|
                0 <= j < kept_seq.len() ==> same_but_events(
                    #[trigger] kept_seq[j],
                    self.planes@[j],
                ));
            assert(forall|j: int|
                0 <= j < kept_seq.len() ==> (#[trigger] self.planes@[j]).events@ == inbox_of(
                    answers,
                    ids,
                    j,
                )) by {
                assert(forall|j: int|
                    0 <= j < kept_seq.len() ==> (#[trigger] pre_spawn[j]).events@ == inbox_of(
                        answers,
                        ids,
                        j,
                    ));
            }
            assert(ids_of(kept_of(ticked, remove_list@)) =~= ids);
            assert forall|kk: int| 0 <= kk < answers.len() implies crate::plane::plane_event_wf(
                (#[trigger] answers[kk]).1,
            ) && answers[kk].1.payload is ClearForLanding && (exists|a: int|
                0 <= a < self.airports@.len() && answers[kk].1.from@ == (
                #[trigger] self.airports@[a]).id@) by {
                let a0 = choose|a: int| 0 <= a < aids.len() && answers[kk].1.from@ == aids[a];
                assert((#[trigger] self.airports@[a0]).id@ == aids[a0]);
            }
            assert(tick_outcome(
                old(self).planes@,
                ticked,
                flags,
                remove_list@,
                self.planes@,
                answers,
                self.airports@,
                *wd,
                *config,
            ));
            assert(exists|t: Seq<Plane>, f: Seq<bool>, an: Seq<(u128, PlaneEvent)>|
                #[trigger] tick_outcome(
                    old(self).planes@,
                    t,
                    f,
                    remove_list@,
                    self.planes@,
                    an,
                    self.airports@,
                    *wd,
                    *config,
                )) by {
                assert(tick_outcome(
                    old(self).planes@,
                    ticked,
                    flags,
                    remove_list@,
                    self.planes@,
                    answers,
                    self.airports@,
                    *wd,
                    *config,
                ));
            }
        }
        (remove_list, snapshot)
    }

    /// With the configured probability, and below the aircraft cap, spawn a
    /// new aircraft on a random flight from a random runway of its origin.
    fn maybe_spawn(&mut self, config: &Config, wd: &WorldData)
        requires
            state_wf(*old(self)),
            config.wf(),
            wd.wf(),
        ensures
            state_wf(*final(self)),
            final(self).airports == old(self).airports,
            // Whatever the random draws: at most one aircraft is added, in
            // front of nothing — the existing list is untouched.
            old(self).planes@.len() <= final(self).planes@.len() <= old(self).planes@.len()
                + 1,
            final(self).planes@.subrange(0, old(self).planes@.len() as int) == old(self).planes@,
            // No spawn at chance zero, and never beyond the cap.
            config.plane_spawn_chance == 0 ==> *final(self) == *old(self),
            (config.max_planes matches Some(m) && old(self).planes@.len() >= m) ==> *final(self)
                == *old(self),
            // A spawned aircraft starts fresh and has its provenance in the
            // world data: model, flight and origin runway.
            final(self).planes@.len() > old(self).planes@.len() ==> spawned_from(
                final(self).planes@.last(),
                *wd,
            ),
    {
        let cap_ok = match config.max_planes {
            Some(m) => self.planes.len() < m,
            None => true,
        };
        if !cap_ok {
            return ;
        }
        let draw = crate::rng::rand_range_i64(0, CHANCE_SCALE + 1);
        if !(draw < config.plane_spawn_chance) {
            return ;
        }
        if wd.planes.len() == 0 || wd.airports.len() == 0 {
            return ;
        }
        let midx = crate::rng::rand_index(wd.planes.len());
        let model = &wd.planes[midx];
        let ghost mut sched_fi: int = 0;
        let ghost mut rand_ai: int = 0;
        let ghost mut rand_bi: int = 0;
        let flight: Flight = match &wd.flights {
            Some(flights) => {
                if flights.len() == 0 {
                    return ;
                }
                let fidx = crate::rng::rand_index(flights.len());
                proof {
                    sched_fi = fidx as int;
                }
                flights[fidx].clone_fl()
            },
            None => {
                let aidx = crate::rng::rand_index(wd.airports.len());
                let bidx = crate::rng::rand_index(wd.airports.len());
                proof {
                    rand_ai = aidx as int;
                    rand_bi = bidx as int;
                }
                let from = &wd.airports[aidx];
                let to = &wd.airports[bidx];
                Flight {
                    airline: String::new(),
                    code: String::new(),
                    from: clone_string(&from.code),
                    to: clone_string(&to.code),
                    plane: vec_of_one(clone_string(&model.id)),
                }
            },
        };
        let origin = match wd.airport(&flight.from) {
            Some(a) => a,
            None => {
                return ;
            },
        };
        let ridx = crate::rng::rand_index(origin.runways.len());
        let runway = &origin.runways[ridx];
        proof {
            assert(origin.wf());
            assert(model.motion.wf());
        }
        let plane = Plane::new(model, &flight, runway, wd);
        proof {
            assert(spawned_from(plane, *wd)) by {
                assert(plane.model.motion == wd.planes@[midx as int].motion && plane.model.id@
                    == wd.planes@[midx as int].id@);
                match wd.flights {
                    Some(fs) => {
                        assert(plane.flight.from@ == fs@[sched_fi].from@ && plane.flight.to@
                            == fs@[sched_fi].to@);
                    },
                    None => {
                        assert(plane.flight.from@ == wd.airports@[rand_ai].code@);
                        assert(plane.flight.to@ == wd.airports@[rand_bi].code@);
                    },
                }
                let oi = choose|i: int|
                    #[trigger] crate::world_data::is_first_airport(
                        wd.airports@,
                        flight.from@,
                        i,
                    ) && *origin == wd.airports@[i];
                assert(wd.airports@[oi].code@ == plane.flight.from@);
                assert(plane.phase matches PhaseData::Takeoff { runway: rw } && rw == *runway);
                assert(*runway == wd.airports@[oi].runways@[ridx as int]);
            }
        }
        let ghost pre = self.planes@;
        self.planes.push(plane);
        proof {
            assert(state_wf(*self)) by {
                assert(forall|j: int|
                    0 <= j < pre.len() ==> #[trigger] self.planes@[j] == pre[j]);
                assert(self.planes@[pre.len() as int].wf());
            }
            assert(self.planes@.subrange(0, pre.len() as int) =~= pre);
            assert(self.planes@.last() == plane);
        }
    }

    /// The flat positional snapshot of every active aircraft.
    pub fn coord_state(&self) -> (r: Vec<u8>)
        ensures
            r@ == snapshot_bytes(self.planes@, self.planes@.len() as int),
    {
        let mut out: Vec<u8> = Vec::new();
        let mut i: usize = 0;
        while i < self.planes.len()
            invariant
                0 <= i <= self.planes@.len(),
                out@ == snapshot_bytes(self.planes@, i as int),
            decreases self.planes@.len() - i,
        {
            let p = &self.planes[i];
            let mut rec: Vec<u8> = vstd::bytes::u128_to_le_bytes(p.id);
            let mut b1 = vstd::bytes::u64_to_le_bytes(p.pos.pos_ang.0.x as u64);
            let mut b2 = vstd::bytes::u64_to_le_bytes(p.pos.pos_ang.0.y as u64);
            let mut b3 = vstd::bytes::u64_to_le_bytes(p.pos.pos_ang.0.z as u64);
            let mut b4 = vstd::bytes::u64_to_le_bytes(p.pos.pos_ang.1.0 as u64);
            let mut b5 = vstd::bytes::u64_to_le_bytes(p.pos.kinematics.v.x as u64);
            let mut b6 = vstd::bytes::u64_to_le_bytes(p.pos.kinematics.v.y as u64);
            rec.append(&mut b1);
            rec.append(&mut b2);
            rec.append(&mut b3);
            rec.append(&mut b4);
            rec.append(&mut b5);
            rec.append(&mut b6);
            proof {
                assert(rec@ == plane_record(self.planes@[i as int]));
            }
            let mut rec2 = rec;
            out.append(&mut rec2);
            i = i + 1;
        }
        out
    }
}

/// Whether the identifier list contains the given identifier.
pub fn contains_id(list: &Vec<u128>, id: u128) -> (r: bool)
    ensures
        r == in_ids(list@, id),
{
    let mut i: usize = 0;
    while i < list.len()
        invariant
            0 <= i <= list@.len(),
            forall|j: int| 0 <= j < i ==> list@[j] != id,
        decreases list@.len() - i,
    {
        if list[i] == id {
            proof {
                assert(list@[i as int] == id);
            }
            return true;
        }
        i = i + 1;
    }
    false
}

/// A vector holding a single element.
fn vec_of_one(s: String) -> (r: Vec<String>)
    ensures
        r@.len() == 1,
        r@[0] == s,
{
    let mut v: Vec<String> = Vec::new();
    v.push(s);
    v
}

/// A copy of a plane-event payload, equal as a value.
fn clone_payload(p: &crate::plane::PlaneEventPayload) -> (r: crate::plane::PlaneEventPayload)
    ensures
        r == *p,
{
    match p {
        crate::plane::PlaneEventPayload::ClearForLanding(rw) => {
            crate::plane::PlaneEventPayload::ClearForLanding(rw.clone_rw())
        },
    }
}

impl AirportData {
    /// A copy of the airport data, equal in code, name and runways.
    pub fn clone_ad(&self) -> (r: AirportData)
        ensures
            r.name == self.name,
            r.code == self.code,
            r.runways@ == self.runways@,
            r.wf() <==> self.wf(),
    {
        let mut runways: Vec<crate::world_data::Runway> = Vec::new();
        let mut i: usize = 0;
        while i < self.runways.len()
            invariant
                0 <= i <= self.runways@.len(),
                runways@.len() == i,
                forall|j: int| 0 <= j < i ==> #[trigger] runways@[j] == self.runways@[j],
            decreases self.runways@.len() - i,
        {
            runways.push(self.runways[i].clone_rw());
            i = i + 1;
        }
        proof {
            assert(runways@ =~= self.runways@);
        }
        AirportData { name: self.name.clone(), code: self.code.clone(), runways }
    }
}

} // verus!
