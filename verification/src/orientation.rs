//! The orientation / visibility state machine: which face of a card is
//! shown, driven either by a continuously advancing rotation angle or by
//! discrete click-triggered flip animations.
//!
//! Angles are kept in tenths of a degree and wrap modulo a full turn;
//! animation progress is kept in thousandths of the animation's length.

use vstd::prelude::*;
use vstd::arithmetic::div_mod::lemma_mod_add_multiples_vanish;

verus! {

/// A full turn, in tenths of a degree.
pub const FULL_TURN: u32 = 3600;

/// Default angle a rotation-driven card advances per tick: one degree.
pub const DEFAULT_STEP: u32 = 10;

/// Default visibility threshold: the front face is shown while the angle
/// is within 45 degrees of facing the viewer.
pub const DEFAULT_THRESHOLD: u32 = 450;

/// A completed flip animation: progress is kept in thousandths.
pub const PROGRESS_ONE: u32 = 1000;

/// The side of a card a viewer sees.
#[derive(Clone, Copy, PartialEq, Eq, Structural, Debug)]
pub enum Face {
    Front,
    Back,
}

/// The other side.
pub open spec fn opposite_spec(f: Face) -> Face {
    match f {
        Face::Front => Face::Back,
        Face::Back => Face::Front,
    }
}

/// The face shown at a rotation angle: the wrapped angle's distance from
/// facing the viewer is compared against the threshold, and the boundary
/// is inclusive on the front side, so exactly at the threshold the front
/// face is still shown.
pub open spec fn face_from_angle_spec(angle: int, threshold: int) -> Face {
    let w = angle % (FULL_TURN as int);
    let d = if w <= (FULL_TURN as int) / 2 {
        w
    } else {
        (FULL_TURN as int) - w
    };
    if d <= threshold {
        Face::Front
    } else {
        Face::Back
    }
}

/// Per-card orientation state, tagged by its drive mode.
#[derive(Clone, Copy, PartialEq, Eq, Structural, Debug)]
pub enum OrientationState {
    /// The angle advances every tick and the shown face is derived from
    /// it anew each time.
    RotationDriven {
        /// Current rotation angle in tenths of a degree, below a full
        /// turn.
        angle: u32,
    },
    /// The shown face is stored and changes only when a click-triggered
    /// flip animation completes.
    EventDriven {
        /// The face shown until the animation in flight completes.
        face: Face,
        /// Whether a flip animation is in flight.
        in_flight: bool,
        /// Progress of the animation in flight, in thousandths; zero
        /// while idle.
        progress: u32,
    },
}

impl OrientationState {
    /// Angles stay below a full turn; progress stays within one
    /// animation and is zero while idle.
    pub open spec fn wf(self) -> bool {
        match self {
            OrientationState::RotationDriven { angle } => angle < FULL_TURN,
            OrientationState::EventDriven { face, in_flight, progress } => progress <= PROGRESS_ONE
                && (!in_flight ==> progress == 0),
        }
    }

    /// The face this state shows under the given threshold.
    pub open spec fn shown_face_spec(self, threshold: int) -> Face {
        match self {
            OrientationState::RotationDriven { angle } => face_from_angle_spec(
                angle as int,
                threshold,
            ),
            OrientationState::EventDriven { face, in_flight, progress } => face,
        }
    }
}

/// The state after a flip request: an idle event-driven card starts an
/// animation from zero; a card whose animation is in flight coalesces
/// the extra request into a no-op, and a rotation-driven card ignores
/// flip requests altogether.
pub open spec fn flip_requested_spec(s: OrientationState) -> OrientationState {
    match s {
        OrientationState::EventDriven { face, in_flight, progress } => {
            if !in_flight {
                OrientationState::EventDriven { face, in_flight: true, progress: 0 }
            } else {
                s
            }
        },
        OrientationState::RotationDriven { .. } => s,
    }
}

/// The state after one tick: a rotation-driven card advances its angle
/// by `rot` and wraps; an event-driven card with an animation in flight
/// advances its progress by `prog`, and on completion flips its face
/// exactly once and returns to idle; an idle event-driven card is
/// unchanged.
pub open spec fn ticked_spec(s: OrientationState, rot: int, prog: int) -> OrientationState {
    match s {
        OrientationState::RotationDriven { angle } => {
            OrientationState::RotationDriven {
                angle: (((angle as int + rot) % (FULL_TURN as int)) as u32),
            }
        },
        OrientationState::EventDriven { face, in_flight, progress } => {
            if in_flight {
                if progress as int + prog >= PROGRESS_ONE as int {
                    OrientationState::EventDriven {
                        face: opposite_spec(face),
                        in_flight: false,
                        progress: 0,
                    }
                } else {
                    OrientationState::EventDriven {
                        face,
                        in_flight,
                        progress: ((progress as int + prog) as u32),
                    }
                }
            } else {
                s
            }
        },
    }
}

/// The other side of a face.
pub fn opposite(f: Face) -> (r: Face)
    ensures
        r == opposite_spec(f),
{
    match f {
        Face::Front => Face::Back,
        Face::Back => Face::Front,
    }
}

/// The face shown at a rotation angle under the given threshold, both in
/// tenths of a degree. Total: any angle is first wrapped into one turn.
/// The boundary is inclusive on the front side: exactly at the threshold
/// the front face is still shown.
pub fn face_from_angle(angle: u32, threshold: u32) -> (f: Face)
    ensures
        f == face_from_angle_spec(angle as int, threshold as int),
{
    let w = angle % FULL_TURN;
    let d = if w <= FULL_TURN / 2 {
        w
    } else {
        FULL_TURN - w
    };
    if d <= threshold {
        Face::Front
    } else {
        Face::Back
    }
}

impl OrientationState {
    /// A rotation-driven card facing the viewer.
    pub fn start_rotation_driven() -> (s: OrientationState)
        ensures
            s == (OrientationState::RotationDriven { angle: 0u32 }),
            s.wf(),
    {
        OrientationState::RotationDriven { angle: 0 }
    }

    /// An idle event-driven card showing its front face.
    pub fn start_event_driven() -> (s: OrientationState)
        ensures
            s == (OrientationState::EventDriven {
                face: Face::Front,
                in_flight: false,
                progress: 0u32,
            }),
            s.wf(),
    {
        OrientationState::EventDriven { face: Face::Front, in_flight: false, progress: 0 }
    }

    /// The face this card currently shows.
    pub fn shown_face(&self, threshold: u32) -> (f: Face)
        ensures
            f == self.shown_face_spec(threshold as int),
    {
        match *self {
            OrientationState::RotationDriven { angle } => face_from_angle(angle, threshold),
            OrientationState::EventDriven { face, .. } => face,
        }
    }

    /// The visibility flags of the two face records: the front face is
    /// visible exactly when the shown face is the front, and the back
    /// face exactly otherwise.
    pub fn visibility(&self, threshold: u32) -> (v: (bool, bool))
        ensures
            v.0 == (self.shown_face_spec(threshold as int) is Front),
            v.1 == (self.shown_face_spec(threshold as int) is Back),
    {
        let f = self.shown_face(threshold);
        match f {
            Face::Front => (true, false),
            Face::Back => (false, true),
        }
    }

    /// Requests a flip: starts an animation if this card is event-driven
    /// and idle, and otherwise changes nothing.
    pub fn request_flip(&mut self)
        ensures
            *final (self) == flip_requested_spec(*old(self)),
            old(self).wf() ==> final (self).wf(),
    {
        match *self {
            OrientationState::EventDriven { face, in_flight, progress } => {
                if !in_flight {
                    *self = OrientationState::EventDriven { face, in_flight: true, progress: 0 };
                }
            },
            OrientationState::RotationDriven { .. } => {},
        }
    }

    /// Advances this card by one tick: the rotation angle by `rot_step`,
    /// or the animation in flight by `prog_step`, flipping the face
    /// exactly once on completion.
    pub fn tick(&mut self, rot_step: u32, prog_step: u32)
        requires
            old(self).wf(),
            rot_step <= FULL_TURN,
            prog_step <= PROGRESS_ONE,
        ensures
            *final (self) == ticked_spec(*old(self), rot_step as int, prog_step as int),
            final (self).wf(),
    {
        match *self {
            OrientationState::RotationDriven { angle } => {
                *self = OrientationState::RotationDriven {
                    angle: (angle + rot_step) % FULL_TURN,
                };
            },
            OrientationState::EventDriven { face, in_flight, progress } => {
                if in_flight {
                    if progress + prog_step >= PROGRESS_ONE {
                        *self = OrientationState::EventDriven {
                            face: opposite(face),
                            in_flight: false,
                            progress: 0,
                        };
                    } else {
                        *self = OrientationState::EventDriven {
                            face,
                            in_flight,
                            progress: progress + prog_step,
                        };
                    }
                }
            },
        }
    }
}

/// Advances every card by one tick, in order: each rotation-driven card
/// by `rot_step`, each event-driven card's animation in flight by
/// `prog_step`. One update per card per tick.
pub fn advance_all(states: &mut Vec<OrientationState>, rot_step: u32, prog_step: u32)
    requires
        forall|k: int| 0 <= k < old(states)@.len() ==> (#[trigger] old(states)@[k]).wf(),
        rot_step <= FULL_TURN,
        prog_step <= PROGRESS_ONE,
    ensures
        final (states)@.len() == old(states)@.len(),
        forall|k: int|
            0 <= k < old(states)@.len() ==> #[trigger] final (states)@[k] == ticked_spec(
                old(states)@[k],
                rot_step as int,
                prog_step as int,
            ) && final (states)@[k].wf(),
{
    let mut k: usize = 0;
    while k < states.len()
        invariant
            0 <= k <= states@.len(),
            states@.len() == old(states)@.len(),
            rot_step <= FULL_TURN,
            prog_step <= PROGRESS_ONE,
            forall|m: int| 0 <= m < old(states)@.len() ==> (#[trigger] old(states)@[m]).wf(),
            forall|m: int|
                0 <= m < k ==> #[trigger] states@[m] == ticked_spec(
                    old(states)@[m],
                    rot_step as int,
                    prog_step as int,
                ) && states@[m].wf(),
            forall|m: int| k <= m < states@.len() ==> #[trigger] states@[m] == old(states)@[m],
        decreases states@.len() - k,
    {
        let mut cur = states[k];
        cur.tick(rot_step, prog_step);
        states.set(k, cur);
        k += 1;
    }
}

/// Law: the shown face is periodic in the angle — a full turn more
/// changes nothing. Together with `face_from_angle_spec` being a total
/// function of the angle alone, re-evaluating it any number of times
/// yields the same face.
pub proof fn lemma_face_periodic(angle: int, threshold: int)
    ensures
        face_from_angle_spec(angle + FULL_TURN as int, threshold) == face_from_angle_spec(
            angle,
            threshold,
        ),
{
    lemma_mod_add_multiples_vanish(angle, FULL_TURN as int);
}

/// Law: a flip request on a card whose animation is in flight is
/// coalesced into a no-op — the state, its progress and its face are
/// unchanged by the extra request.
pub proof fn lemma_flip_request_mid_flight_noop(s: OrientationState)
    requires
        s matches OrientationState::EventDriven { in_flight: true, .. },
    ensures
        flip_requested_spec(s) == s,
{
}

/// Law: while an animation in flight has not yet reached completion, a
/// tick advances only its progress — the shown face does not change and
/// the animation stays in flight.
pub proof fn lemma_tick_mid_flight_keeps_face(face: Face, progress: u32, prog: int)
    requires
        0 <= prog,
        progress as int + prog < PROGRESS_ONE as int,
    ensures
        ticked_spec(
            OrientationState::EventDriven { face, in_flight: true, progress },
            DEFAULT_STEP as int,
            prog,
        ) == (OrientationState::EventDriven {
            face,
            in_flight: true,
            progress: ((progress as int + prog) as u32),
        }),
{
}

/// The state after a run of ticks whose progress amounts are given in
/// order; the rotation step plays no part in an event-driven card.
pub open spec fn run_progress_spec(s: OrientationState, amounts: Seq<int>) -> OrientationState
    decreases amounts.len(),
{
    if amounts.len() == 0 {
        s
    } else {
        run_progress_spec(ticked_spec(s, 0, amounts[0]), amounts.drop_first())
    }
}

/// How often the shown face changes during a run of ticks.
pub open spec fn transitions_in_run(s: OrientationState, amounts: Seq<int>, threshold: int) -> int
    decreases amounts.len(),
{
    if amounts.len() == 0 {
        0int
    } else {
        let next = ticked_spec(s, 0, amounts[0]);
        (if next.shown_face_spec(threshold) != s.shown_face_spec(threshold) {
            1int
        } else {
            0int
        }) + transitions_in_run(next, amounts.drop_first(), threshold)
    }
}

/// Law: an idle event-driven card is left exactly as it is by any run of
/// ticks, with no face transition.
pub proof fn lemma_run_on_idle_is_noop(s: OrientationState, amounts: Seq<int>, threshold: int)
    requires
        s matches OrientationState::EventDriven { in_flight: false, .. },
    ensures
        run_progress_spec(s, amounts) == s,
        transitions_in_run(s, amounts, threshold) == 0,
    decreases amounts.len(),
{
    if amounts.len() > 0 {
        lemma_run_on_idle_is_noop(s, amounts.drop_first(), threshold);
    }
}

/// Law: driving a just-requested flip to completion — by any run of
/// ticks whose progress amounts add up to at least one whole animation —
/// flips the shown face exactly once, and leaves the card idle on the
/// opposite face.
pub proof fn lemma_flip_run_transitions_once(
    face: Face,
    progress: u32,
    amounts: Seq<int>,
    threshold: int,
)
    requires
        progress < PROGRESS_ONE,
        forall|i: int| 0 <= i < amounts.len() ==> 0 <= #[trigger] amounts[i] <= PROGRESS_ONE,
        progress + seq_sum(amounts) >= PROGRESS_ONE,
    ensures
        run_progress_spec(
            OrientationState::EventDriven { face, in_flight: true, progress },
            amounts,
        ) == (OrientationState::EventDriven {
            face: opposite_spec(face),
            in_flight: false,
            progress: 0u32,
        }),
        transitions_in_run(
            OrientationState::EventDriven { face, in_flight: true, progress },
            amounts,
            threshold,
        ) == 1,
    decreases amounts.len(),
{
    let s = OrientationState::EventDriven { face, in_flight: true, progress };
    let done = OrientationState::EventDriven {
        face: opposite_spec(face),
        in_flight: false,
        progress: 0u32,
    };
    assert(amounts.len() > 0);
    let next = ticked_spec(s, 0, amounts[0]);
    if progress + amounts[0] >= PROGRESS_ONE {
        assert(next == done);
        lemma_run_on_idle_is_noop(done, amounts.drop_first(), threshold);
    } else {
        assert(next == (OrientationState::EventDriven {
            face,
            in_flight: true,
            progress: ((progress + amounts[0]) as u32),
        }));
        assert(seq_sum(amounts) == amounts[0] + seq_sum(amounts.drop_first()));
        lemma_flip_run_transitions_once(
            face,
            ((progress + amounts[0]) as u32),
            amounts.drop_first(),
            threshold,
        );
    }
}

/// The sum of a sequence of amounts.
pub open spec fn seq_sum(amounts: Seq<int>) -> int
    decreases amounts.len(),
{
    if amounts.len() == 0 {
        0int
    } else {
        amounts[0] + seq_sum(amounts.drop_first())
    }
}

/// Law: the tick that drives an animation in flight to completion flips
/// the face exactly once and returns the card to idle, from where
/// further ticks change nothing until the next request.
pub proof fn lemma_tick_completes_flip(face: Face, progress: u32, rot: int, prog: int)
    requires
        progress as int + prog >= PROGRESS_ONE as int,
    ensures
        ticked_spec(OrientationState::EventDriven { face, in_flight: true, progress }, rot, prog)
            == (OrientationState::EventDriven {
            face: opposite_spec(face),
            in_flight: false,
            progress: 0u32,
        }),
        forall|r2: int, p2: int|
            #![trigger ticked_spec(ticked_spec(OrientationState::EventDriven { face, in_flight: true, progress }, rot, prog), r2, p2)]
            ticked_spec(
                ticked_spec(
                    OrientationState::EventDriven { face, in_flight: true, progress },
                    rot,
                    prog,
                ),
                r2,
                p2,
            ) == ticked_spec(
                OrientationState::EventDriven { face, in_flight: true, progress },
                rot,
                prog,
            ),
{
}

} // verus!
