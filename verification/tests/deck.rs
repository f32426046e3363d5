use card_scene::catalog::{back_key, front_key, standard_ranks, standard_suits, Rank, Suit};
use card_scene::layout::{build_deck, build_deck_checked, Deck, DeckError, GridConfig};

fn built_standard_deck() -> Deck {
    let suits = standard_suits();
    let ranks = standard_ranks();
    let cfg = GridConfig { cell_width: 140, cell_height: 190 };
    let mut handles: Vec<u64> = Vec::new();
    for k in 0..52u64 {
        handles.push(1000 + k);
    }
    build_deck(&suits, &ranks, &cfg, &handles, 99)
}

#[test]
fn standard_catalog_orders() {
    let suits = standard_suits();
    assert_eq!(suits, vec![Suit::Hearts, Suit::Clubs, Suit::Spades, Suit::Diamonds]);
    let ranks = standard_ranks();
    assert_eq!(ranks.len(), 13);
    assert_eq!(ranks[0], Rank::Two);
    assert_eq!(ranks[8], Rank::Ten);
    assert_eq!(ranks[9], Rank::Jack);
    assert_eq!(ranks[12], Rank::Ace);
}

#[test]
fn rank_values_and_symbols() {
    assert_eq!(Rank::Two.value(), 0);
    assert_eq!(Rank::Ten.value(), 8);
    assert_eq!(Rank::Jack.value(), 9);
    assert_eq!(Rank::Ace.value(), 12);
    assert_eq!(Rank::Ten.symbol(), "10");
    assert_eq!(Rank::Queen.symbol(), "Q");
    assert_eq!(Suit::Diamonds.name(), "Diamonds");
    assert_eq!(Suit::Hearts.name(), "Hearts");
}

#[test]
fn asset_keys_follow_template() {
    assert_eq!(front_key(Suit::Hearts, Rank::Two), "cards/cardHearts2.png");
    assert_eq!(front_key(Suit::Diamonds, Rank::Ten), "cards/cardDiamonds10.png");
    assert_eq!(front_key(Suit::Spades, Rank::Ace), "cards/cardSpadesA.png");
    assert_eq!(back_key(), "cards/cardBack_blue2.png");
}

#[test]
fn deck_has_52_unique_identities() {
    let deck = built_standard_deck();
    assert_eq!(deck.cards.len(), 52);
    for a in 0..52 {
        for b in 0..52 {
            if a != b {
                let same = deck.cards[a].suit == deck.cards[b].suit
                    && deck.cards[a].rank == deck.cards[b].rank;
                assert!(!same);
            }
        }
    }
    // no omissions: every catalog identity occurs
    for s in standard_suits() {
        for r in standard_ranks() {
            let found = deck.cards.iter().any(|c| c.suit == s && c.rank == r);
            assert!(found);
        }
    }
}

#[test]
fn deck_positions_are_unique() {
    let deck = built_standard_deck();
    for a in 0..52 {
        for b in 0..52 {
            if a != b {
                assert_ne!(deck.cards[a].pos, deck.cards[b].pos);
            }
        }
    }
}

#[test]
fn layout_matches_grid_formula() {
    let deck = built_standard_deck();
    for i in 0..4 {
        for j in 0..13 {
            let c = &deck.cards[i * 13 + j];
            assert_eq!(c.pos.x, j as i64 * 140);
            assert_eq!(c.pos.y, i as i64 * 190);
            assert_eq!(c.pos.z, 1);
            assert_eq!(c.back.pos.x, c.pos.x);
            assert_eq!(c.back.pos.y, c.pos.y);
            assert_eq!(c.back.pos.z, 0);
        }
    }
}

#[test]
fn layout_is_deterministic() {
    let d1 = built_standard_deck();
    let d2 = built_standard_deck();
    assert_eq!(d1.cards.len(), d2.cards.len());
    for k in 0..52 {
        assert_eq!(d1.cards[k].suit, d2.cards[k].suit);
        assert_eq!(d1.cards[k].rank, d2.cards[k].rank);
        assert_eq!(d1.cards[k].pos, d2.cards[k].pos);
        assert_eq!(d1.cards[k].key, d2.cards[k].key);
        assert_eq!(d1.cards[k].handle, d2.cards[k].handle);
        assert_eq!(d1.cards[k].back, d2.cards[k].back);
    }
}

#[test]
fn deck_stores_collaborator_handles_and_keys() {
    let deck = built_standard_deck();
    for k in 0..52 {
        assert_eq!(deck.cards[k].handle, 1000 + k as u64);
        assert_eq!(deck.cards[k].back.handle, 99);
    }
    // card 39 is (Diamonds, Two): row 3, column 0
    assert_eq!(deck.cards[39].suit, Suit::Diamonds);
    assert_eq!(deck.cards[39].rank, Rank::Two);
    assert_eq!(deck.cards[39].key, "cards/cardDiamonds2.png");
}

#[test]
fn checked_build_succeeds_when_all_faces_resolve() {
    let suits = standard_suits();
    let ranks = standard_ranks();
    let cfg = GridConfig { cell_width: 140, cell_height: 190 };
    let mut handles: Vec<Option<u64>> = Vec::new();
    for k in 0..52u64 {
        handles.push(Some(k));
    }
    let r = build_deck_checked(&suits, &ranks, &cfg, &handles, Some(7));
    let deck = r.unwrap();
    assert_eq!(deck.cards.len(), 52);
    assert_eq!(deck.cards[13].handle, 13);
    assert_eq!(deck.cards[13].back.handle, 7);
}

#[test]
fn checked_build_aborts_on_missing_face() {
    let suits = standard_suits();
    let ranks = standard_ranks();
    let cfg = GridConfig { cell_width: 140, cell_height: 190 };
    let mut handles: Vec<Option<u64>> = Vec::new();
    for k in 0..52u64 {
        handles.push(if k == 17 { None } else { Some(k) });
    }
    let r = build_deck_checked(&suits, &ranks, &cfg, &handles, Some(7));
    assert_eq!(r.err().unwrap(), DeckError::AssetMissing);

    let mut all: Vec<Option<u64>> = Vec::new();
    for k in 0..52u64 {
        all.push(Some(k));
    }
    let r2 = build_deck_checked(&suits, &ranks, &cfg, &all, None);
    assert_eq!(r2.err().unwrap(), DeckError::AssetMissing);
}
