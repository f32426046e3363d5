//! The interaction dispatcher: drains the tick's queue of raw click
//! events, resolves each to a card — directly when an external picking
//! collaborator already names the target, else through the pointer
//! resolver — and requests a flip on the card hit. A click that resolves
//! to nothing is a no-op, not an error.

use vstd::prelude::*;
use crate::layout::{Card, Deck};
use crate::orientation::{OrientationState, flip_requested_spec};
use crate::pointer::{
    Camera, Viewport, EXTENT_LIMIT, camera_of, hit_spec, lemma_hit_spec_sound, positions_bounded,
    resolve_hit, resolve_world, resolve_world_spec,
};

verus! {

/// A raw click event: an explicit target card index when an external
/// picking collaborator already resolved the click, else the pointer
/// position in viewport pixels at the time of the click.
#[derive(Clone, Copy, PartialEq, Eq, Structural, Debug)]
pub struct ClickEvent {
    pub target: Option<usize>,
    pub pointer_x: i64,
    pub pointer_y: i64,
}

/// The card a click event lands on: the explicit target when one is
/// supplied (dropped silently when out of range), else the card hit by
/// the pointer position after conversion to world coordinates.
pub open spec fn resolved_target_spec(
    e: ClickEvent,
    cam: Option<Camera>,
    vp: Viewport,
    cards: Seq<Card>,
    w: int,
    h: int,
) -> Option<int> {
    match e.target {
        Option::Some(t) => {
            if (t as int) < cards.len() {
                Option::Some(t as int)
            } else {
                Option::None
            }
        },
        Option::None => {
            match resolve_world_spec(e.pointer_x as int, e.pointer_y as int, cam, vp) {
                Option::None => Option::None,
                Option::Some(wp) => hit_spec(cards, w, h, wp.x as int, wp.y as int),
            }
        },
    }
}

/// The states after one click event: a flip request on the resolved
/// card's state, or all unchanged when the click resolves to nothing.
pub open spec fn apply_click_spec(
    states: Seq<OrientationState>,
    e: ClickEvent,
    cam: Option<Camera>,
    vp: Viewport,
    cards: Seq<Card>,
    w: int,
    h: int,
) -> Seq<OrientationState> {
    match resolved_target_spec(e, cam, vp, cards, w, h) {
        Option::Some(t) => {
            if 0 <= t < states.len() {
                states.update(t, flip_requested_spec(states[t]))
            } else {
                states
            }
        },
        Option::None => states,
    }
}

/// The states after a whole queue of click events, drained in order,
/// each resolved independently.
pub open spec fn apply_clicks_spec(
    states: Seq<OrientationState>,
    events: Seq<ClickEvent>,
    cam: Option<Camera>,
    vp: Viewport,
    cards: Seq<Card>,
    w: int,
    h: int,
) -> Seq<OrientationState>
    decreases events.len(),
{
    if events.len() == 0 {
        states
    } else {
        apply_clicks_spec(
            apply_click_spec(states, events[0], cam, vp, cards, w, h),
            events.drop_first(),
            cam,
            vp,
            cards,
            w,
            h,
        )
    }
}

/// Draining a queue and then one more event is the same as draining the
/// queue with that event appended.
pub proof fn lemma_apply_clicks_snoc(
    states: Seq<OrientationState>,
    events: Seq<ClickEvent>,
    e: ClickEvent,
    cam: Option<Camera>,
    vp: Viewport,
    cards: Seq<Card>,
    w: int,
    h: int,
)
    ensures
        apply_clicks_spec(states, events.push(e), cam, vp, cards, w, h) == apply_click_spec(
            apply_clicks_spec(states, events, cam, vp, cards, w, h),
            e,
            cam,
            vp,
            cards,
            w,
            h,
        ),
    decreases events.len(),
{
    if events.len() == 0 {
        assert(events.push(e)[0] == e);
        assert(events.push(e).drop_first() =~= Seq::<ClickEvent>::empty());
        let s1 = apply_click_spec(states, e, cam, vp, cards, w, h);
        assert(apply_clicks_spec(s1, Seq::<ClickEvent>::empty(), cam, vp, cards, w, h) == s1);
        assert(apply_clicks_spec(states, events, cam, vp, cards, w, h) == states);
    } else {
        assert(events.push(e)[0] == events[0]);
        assert(events.push(e).drop_first() =~= events.drop_first().push(e));
        lemma_apply_clicks_snoc(
            apply_click_spec(states, events[0], cam, vp, cards, w, h),
            events.drop_first(),
            e,
            cam,
            vp,
            cards,
            w,
            h,
        );
    }
}

/// Drains the tick's click events in order. Each event is resolved
/// independently — nothing is cached across events or ticks — and a
/// resolved card receives one flip request; the rest of the deck's
/// states are untouched.
pub fn dispatch_clicks(
    events: &Vec<ClickEvent>,
    camera: Option<&Camera>,
    vp: &Viewport,
    deck: &Deck,
    card_w: i64,
    card_h: i64,
    states: &mut Vec<OrientationState>,
)
    requires
        vp.wf(),
        camera matches Option::Some(c) ==> c.wf(),
        0 < card_w <= EXTENT_LIMIT,
        0 < card_h <= EXTENT_LIMIT,
        positions_bounded(deck.cards@),
        old(states)@.len() == deck.cards@.len(),
    ensures
        final (states)@ == apply_clicks_spec(
            old(states)@,
            events@,
            camera_of(camera),
            *vp,
            deck.cards@,
            card_w as int,
            card_h as int,
        ),
        final (states)@.len() == old(states)@.len(),
{
    let ghost cam = camera_of(camera);
    let ghost gw = card_w as int;
    let ghost gh = card_h as int;
    let mut n: usize = 0;
    while n < events.len()
        invariant
            cam == camera_of(camera),
            gw == card_w as int,
            gh == card_h as int,
            0 <= n <= events@.len(),
            vp.wf(),
            camera matches Option::Some(c) ==> c.wf(),
            0 < card_w <= EXTENT_LIMIT,
            0 < card_h <= EXTENT_LIMIT,
            positions_bounded(deck.cards@),
            states@.len() == deck.cards@.len(),
            states@ == apply_clicks_spec(
                old(states)@,
                events@.take(n as int),
                cam,
                *vp,
                deck.cards@,
                gw,
                gh,
            ),
        decreases events@.len() - n,
    {
        let e = events[n];
        let target: Option<usize> = match e.target {
            Option::Some(t) => {
                if t < states.len() {
                    Option::Some(t)
                } else {
                    Option::None
                }
            },
            Option::None => {
                match resolve_world(e.pointer_x, e.pointer_y, camera, vp) {
                    Option::Some(wp) => resolve_hit(&wp, deck, card_w, card_h),
                    Option::None => Option::None,
                }
            },
        };
        proof {
            assert((match target {
                Option::Some(t) => Option::Some(t as int),
                Option::None => Option::<int>::None,
            }) == resolved_target_spec(e, cam, *vp, deck.cards@, gw, gh));
        }
        match target {
            Option::Some(t) => {
                proof {
                    if e.target is None {
                        let wp = resolve_world_spec(
                            e.pointer_x as int,
                            e.pointer_y as int,
                            cam,
                            *vp,
                        )->Some_0;
                        lemma_hit_spec_sound(deck.cards@, gw, gh, wp.x as int, wp.y as int);
                    }
                }
                let mut cur = states[t];
                cur.request_flip();
                states.set(t, cur);
            },
            Option::None => {},
        }
        proof {
            lemma_apply_clicks_snoc(
                old(states)@,
                events@.take(n as int),
                events@[n as int],
                cam,
                *vp,
                deck.cards@,
                gw,
                gh,
            );
            assert(events@.take(n as int + 1) =~= events@.take(n as int).push(events@[n as int]));
        }
        n += 1;
    }
    proof {
        assert(events@.take(events@.len() as int) =~= events@);
    }
}

} // verus!
