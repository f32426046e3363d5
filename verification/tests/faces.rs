use card_scene::orientation::{
    advance_all, face_from_angle, Face, OrientationState, DEFAULT_STEP, DEFAULT_THRESHOLD,
    FULL_TURN, PROGRESS_ONE,
};

#[test]
fn face_function_is_total_and_idempotent() {
    for angle in [0u32, 1, 250, 449, 450, 451, 1800, 3150, 3599, 4000, 100000] {
        let first = face_from_angle(angle, DEFAULT_THRESHOLD);
        let second = face_from_angle(angle, DEFAULT_THRESHOLD);
        assert_eq!(first, second);
        assert_eq!(first, face_from_angle(angle + FULL_TURN, DEFAULT_THRESHOLD));
    }
}

#[test]
fn face_threshold_boundary() {
    // 44.9 degrees: front; 45.1 degrees: back.
    assert_eq!(face_from_angle(449, DEFAULT_THRESHOLD), Face::Front);
    assert_eq!(face_from_angle(451, DEFAULT_THRESHOLD), Face::Back);
    // exactly 45 degrees is defined: inclusive on the front side.
    assert_eq!(face_from_angle(450, DEFAULT_THRESHOLD), Face::Front);
    // symmetric on the other side of a full turn
    assert_eq!(face_from_angle(3150, DEFAULT_THRESHOLD), Face::Front);
    assert_eq!(face_from_angle(3149, DEFAULT_THRESHOLD), Face::Back);
    // facing away
    assert_eq!(face_from_angle(1800, DEFAULT_THRESHOLD), Face::Back);
}

#[test]
fn rotation_driven_tick_wraps() {
    let mut s = OrientationState::RotationDriven { angle: 3590 };
    s.tick(20, 0);
    assert_eq!(s, OrientationState::RotationDriven { angle: 10 });
    let mut t = OrientationState::start_rotation_driven();
    t.tick(DEFAULT_STEP, 0);
    assert_eq!(t, OrientationState::RotationDriven { angle: DEFAULT_STEP });
}

#[test]
fn rotation_driven_shown_face_follows_angle() {
    let s = OrientationState::RotationDriven { angle: 460 };
    assert_eq!(s.shown_face(DEFAULT_THRESHOLD), Face::Back);
    assert_eq!(s.visibility(DEFAULT_THRESHOLD), (false, true));
    let t = OrientationState::RotationDriven { angle: 440 };
    assert_eq!(t.shown_face(DEFAULT_THRESHOLD), Face::Front);
    assert_eq!(t.visibility(DEFAULT_THRESHOLD), (true, false));
}

#[test]
fn discrete_flip_transitions_exactly_once() {
    let mut s = OrientationState::start_event_driven();
    assert_eq!(s.shown_face(DEFAULT_THRESHOLD), Face::Front);
    s.request_flip();
    assert_eq!(
        s,
        OrientationState::EventDriven { face: Face::Front, in_flight: true, progress: 0 }
    );
    let mut transitions: u32 = 0;
    let mut last = s.shown_face(DEFAULT_THRESHOLD);
    for _ in 0..10 {
        s.tick(0, 100);
        let now = s.shown_face(DEFAULT_THRESHOLD);
        if now != last {
            transitions += 1;
        }
        last = now;
    }
    assert_eq!(transitions, 1);
    assert_eq!(
        s,
        OrientationState::EventDriven { face: Face::Back, in_flight: false, progress: 0 }
    );
}

#[test]
fn discrete_flip_request_mid_flight_is_a_no_op() {
    let mut s = OrientationState::start_event_driven();
    s.request_flip();
    s.tick(0, PROGRESS_ONE / 2);
    let mid = s;
    assert_eq!(
        mid,
        OrientationState::EventDriven {
            face: Face::Front,
            in_flight: true,
            progress: PROGRESS_ONE / 2
        }
    );
    // a second request mid-flight changes neither progress nor face
    s.request_flip();
    assert_eq!(s, mid);
    // the animation then completes as if the extra request never happened
    s.tick(0, PROGRESS_ONE / 2);
    assert_eq!(
        s,
        OrientationState::EventDriven { face: Face::Back, in_flight: false, progress: 0 }
    );
}

#[test]
fn idle_event_driven_card_ignores_ticks() {
    let mut s = OrientationState::EventDriven { face: Face::Back, in_flight: false, progress: 0 };
    s.tick(DEFAULT_STEP, 100);
    assert_eq!(
        s,
        OrientationState::EventDriven { face: Face::Back, in_flight: false, progress: 0 }
    );
}

#[test]
fn advance_all_updates_every_card_once() {
    let mut states = vec![
        OrientationState::RotationDriven { angle: 0 },
        OrientationState::RotationDriven { angle: 3595 },
        OrientationState::EventDriven { face: Face::Front, in_flight: true, progress: 900 },
        OrientationState::EventDriven { face: Face::Back, in_flight: false, progress: 0 },
    ];
    advance_all(&mut states, DEFAULT_STEP, 200);
    assert_eq!(states[0], OrientationState::RotationDriven { angle: 10 });
    assert_eq!(states[1], OrientationState::RotationDriven { angle: 5 });
    assert_eq!(
        states[2],
        OrientationState::EventDriven { face: Face::Back, in_flight: false, progress: 0 }
    );
    assert_eq!(
        states[3],
        OrientationState::EventDriven { face: Face::Back, in_flight: false, progress: 0 }
    );
}
