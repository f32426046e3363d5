use card_scene::catalog::{front_key, standard_ranks, standard_suits, Rank, Suit};
use card_scene::layout::{build_deck, BackFace, Card, Deck, GridConfig, Position};
use card_scene::pointer::{
    resolve_hit, resolve_world, Camera, Viewport, WorldPoint, MAX_VIEW_HEIGHT, MAX_VIEW_WIDTH,
};

fn scene_camera() -> Camera {
    Camera { center_x: 910, center_y: 380, max_width: MAX_VIEW_WIDTH, max_height: MAX_VIEW_HEIGHT }
}

fn scene_deck() -> Deck {
    let suits = standard_suits();
    let ranks = standard_ranks();
    let cfg = GridConfig { cell_width: 140, cell_height: 190 };
    let mut handles: Vec<u64> = Vec::new();
    for k in 0..52u64 {
        handles.push(k);
    }
    build_deck(&suits, &ranks, &cfg, &handles, 99)
}

#[test]
fn resolve_world_maps_pixels_to_world_units() {
    let cam = scene_camera();
    // viewport of the camera's exact aspect: 3800 x 2100 shown in full
    let vp = Viewport { width: 1900, height: 1050 };
    // top-left pixel: left edge of the shown rectangle, top edge in world y
    let tl = resolve_world(0, 0, Some(&cam), &vp).unwrap();
    assert_eq!(tl, WorldPoint { x: 910 - 1900, y: 380 + 1050 });
    // center pixel lands on the camera's center
    let c = resolve_world(950, 525, Some(&cam), &vp).unwrap();
    assert_eq!(c, WorldPoint { x: 910, y: 380 });
    // one pixel is two world units here
    let p = resolve_world(951, 524, Some(&cam), &vp).unwrap();
    assert_eq!(p, WorldPoint { x: 912, y: 382 });
}

#[test]
fn resolve_world_respects_max_extents() {
    let cam = scene_camera();
    // a much wider viewport: width capped at 3800, height scaled down
    let vp = Viewport { width: 3800, height: 1000 };
    let tl = resolve_world(0, 0, Some(&cam), &vp).unwrap();
    assert_eq!(tl, WorldPoint { x: 910 - 1900, y: 380 + 500 });
    // a much taller viewport: height capped at 2100, width scaled down
    let vp2 = Viewport { width: 1000, height: 2100 };
    let tl2 = resolve_world(0, 0, Some(&cam), &vp2).unwrap();
    assert_eq!(tl2, WorldPoint { x: 910 - 500, y: 380 + 1050 });
}

#[test]
fn resolve_world_is_none_outside_viewport_or_without_camera() {
    let cam = scene_camera();
    let vp = Viewport { width: 1900, height: 1050 };
    assert_eq!(resolve_world(-1, 0, Some(&cam), &vp), None);
    assert_eq!(resolve_world(1900, 0, Some(&cam), &vp), None);
    assert_eq!(resolve_world(0, 1050, Some(&cam), &vp), None);
    assert_eq!(resolve_world(0, 0, None, &vp), None);
}

#[test]
fn hit_at_card_corner_resolves_to_that_card() {
    let deck = scene_deck();
    // (Diamonds, Two) sits in row 3, column 0: top-left corner (0, 570)
    let hit = resolve_hit(&WorldPoint { x: 0, y: 570 }, &deck, 140, 190);
    assert_eq!(hit, Some(39));
    assert_eq!(deck.cards[39].suit, Suit::Diamonds);
    assert_eq!(deck.cards[39].rank, Rank::Two);
    // the corner of the very first card
    let hit0 = resolve_hit(&WorldPoint { x: 0, y: 0 }, &deck, 140, 190);
    assert_eq!(hit0, Some(0));
    // an interior point of a cell still belongs to its card: row 2, column 0
    let hit_mid = resolve_hit(&WorldPoint { x: 139, y: 569 }, &deck, 140, 190);
    assert_eq!(hit_mid, Some(26));
}

#[test]
fn hit_outside_every_card_is_none() {
    let deck = scene_deck();
    assert_eq!(resolve_hit(&WorldPoint { x: -1, y: 0 }, &deck, 140, 190), None);
    assert_eq!(resolve_hit(&WorldPoint { x: 13 * 140, y: 0 }, &deck, 140, 190), None);
    assert_eq!(resolve_hit(&WorldPoint { x: 0, y: 4 * 190 }, &deck, 140, 190), None);
}

fn overlap_card(suit: Suit, rank: Rank, x: i64, y: i64, z: i64) -> Card {
    Card {
        suit,
        rank,
        handle: 0,
        key: front_key(suit, rank),
        pos: Position { x, y, z },
        back: BackFace { handle: 1, pos: Position { x, y, z: z - 1 } },
    }
}

#[test]
fn hit_prefers_topmost_then_latest() {
    // two overlapping cards, the deeper-drawn one placed later
    let low_late = Deck {
        cards: vec![
            overlap_card(Suit::Hearts, Rank::Two, 0, 0, 5),
            overlap_card(Suit::Clubs, Rank::Two, 50, 0, 1),
        ],
    };
    let hit = resolve_hit(&WorldPoint { x: 60, y: 10 }, &low_late, 140, 190);
    assert_eq!(hit, Some(0));
    // equal depth: the latest-placed card wins
    let tie = Deck {
        cards: vec![
            overlap_card(Suit::Hearts, Rank::Three, 0, 0, 1),
            overlap_card(Suit::Clubs, Rank::Three, 50, 0, 1),
        ],
    };
    let hit_tie = resolve_hit(&WorldPoint { x: 60, y: 10 }, &tie, 140, 190);
    assert_eq!(hit_tie, Some(1));
}
