use card_scene::catalog::{standard_ranks, standard_suits, Rank, Suit};
use card_scene::layout::{build_deck, GridConfig, Position};
use card_scene::orientation::{OrientationState, DEFAULT_THRESHOLD};

#[test]
fn whole_scene_from_build_to_visibility() {
    // build the deck with the standard orderings and the standard grid
    let suits = standard_suits();
    let ranks = standard_ranks();
    let cfg = GridConfig { cell_width: 140, cell_height: 190 };
    let mut handles: Vec<u64> = Vec::new();
    for k in 0..52u64 {
        handles.push(k);
    }
    let deck = build_deck(&suits, &ranks, &cfg, &handles, 99);

    // (Diamonds, Two) sits in grid cell row 3, column 0: world (0, 570)
    let k = deck
        .cards
        .iter()
        .position(|c| c.suit == Suit::Diamonds && c.rank == Rank::Two)
        .unwrap();
    assert_eq!(k, 39);
    assert_eq!(deck.cards[k].pos, Position { x: 0, y: 570, z: 1 });

    // every card starts rotation-driven, facing the viewer
    let mut states: Vec<OrientationState> = Vec::new();
    for _ in 0..52 {
        states.push(OrientationState::start_rotation_driven());
    }
    assert_eq!(states[k].visibility(DEFAULT_THRESHOLD), (true, false));

    // rotated to 46 degrees, its back face shows and its front hides
    states[k] = OrientationState::RotationDriven { angle: 460 };
    assert_eq!(states[k].visibility(DEFAULT_THRESHOLD), (false, true));
    // the other cards are untouched
    assert_eq!(states[0].visibility(DEFAULT_THRESHOLD), (true, false));
}
