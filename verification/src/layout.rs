//! The deck layout engine: deterministic placement of the 52 cards on a
//! grid (row = suit, column = rank) and construction of the front/back
//! face pairing, with the front face owning its back face.

use vstd::prelude::*;
use crate::catalog::{Suit, Rank, front_key_spec, front_key};

verus! {

/// Default horizontal distance between the top-left corners of two cards
/// in neighbouring columns, in world units.
pub const CELL_WIDTH: i64 = 140;

/// Default vertical distance between the top-left corners of two cards in
/// neighbouring rows, in world units.
pub const CELL_HEIGHT: i64 = 190;

/// Draw depth of every front face: above the backs in draw order.
pub const FRONT_DEPTH: i64 = 1;

/// Draw depth of every back face: below the fronts in draw order.
pub const BACK_DEPTH: i64 = 0;

/// Grid spacing used by the layout engine.
#[derive(Clone, Copy, PartialEq, Eq, Structural, Debug)]
pub struct GridConfig {
    pub cell_width: i64,
    pub cell_height: i64,
}

impl GridConfig {
    /// Cell sizes must be positive and small enough that every grid
    /// coordinate fits comfortably in the integer world range.
    pub open spec fn wf(self) -> bool {
        &&& 0 < self.cell_width <= 1_000_000
        &&& 0 < self.cell_height <= 1_000_000
    }
}

impl Default for GridConfig {
    /// The standard grid spacing.
    fn default() -> (c: GridConfig)
        ensures
            c.cell_width == CELL_WIDTH,
            c.cell_height == CELL_HEIGHT,
    {
        GridConfig { cell_width: CELL_WIDTH, cell_height: CELL_HEIGHT }
    }
}

/// A 2D placement in world units, with a draw depth.
#[derive(Clone, Copy, PartialEq, Eq, Structural, Debug)]
pub struct Position {
    pub x: i64,
    pub y: i64,
    pub z: i64,
}

/// The hidden side of a card. It is owned by its front face and carries
/// only the opaque handle of the shared back image and its own placement.
#[derive(Clone, Copy, PartialEq, Eq, Structural, Debug)]
pub struct BackFace {
    /// Opaque handle of the shared back face image, as returned by the
    /// asset collaborator; the core stores it without interpreting it.
    pub handle: u64,
    pub pos: Position,
}

/// A card: the addressable front face, which owns its back face.
pub struct Card {
    pub suit: Suit,
    pub rank: Rank,
    /// Opaque handle of the front face image.
    pub handle: u64,
    /// Asset key the front face image was requested under.
    pub key: String,
    pub pos: Position,
    pub back: BackFace,
}

/// An ordered collection of all 52 cards.
pub struct Deck {
    pub cards: Vec<Card>,
}

/// Deck construction errors.
#[derive(Clone, Copy, PartialEq, Eq, Structural, Debug)]
pub enum DeckError {
    /// A required face image could not be resolved by the asset
    /// collaborator.
    AssetMissing,
}

/// What the layout engine promises of the card in suit-row `row` and
/// rank-column `col`: identity, asset key and handles, and the fixed grid
/// position, with the back face sharing the front's x/y at back depth.
pub open spec fn card_built(
    c: Card,
    s: Suit,
    r: Rank,
    row: int,
    col: int,
    cfg: GridConfig,
    front_handle: u64,
    back_handle: u64,
) -> bool {
    &&& c.suit == s
    &&& c.rank == r
    &&& c.handle == front_handle
    &&& c.key@ == front_key_spec(s, r)
    &&& c.pos.x as int == col * (cfg.cell_width as int)
    &&& c.pos.y as int == row * (cfg.cell_height as int)
    &&& c.pos.z == FRONT_DEPTH
    &&& c.back.handle == back_handle
    &&& c.back.pos.x == c.pos.x
    &&& c.back.pos.y == c.pos.y
    &&& c.back.pos.z == BACK_DEPTH
}

/// What `build_deck` promises of its whole result: 52 cards, the one at
/// index `i * 13 + j` built for suit-row `i` and rank-column `j`.
pub open spec fn deck_built(
    deck: Deck,
    suits: Seq<Suit>,
    ranks: Seq<Rank>,
    cfg: GridConfig,
    front_handles: Seq<u64>,
    back_handle: u64,
) -> bool {
    &&& deck.cards@.len() == 52
    &&& forall|i: int, j: int|
        0 <= i < 4 && 0 <= j < 13 ==> #[trigger] card_built(
            deck.cards@[i * 13 + j],
            suits[i],
            ranks[j],
            i,
            j,
            cfg,
            front_handles[i * 13 + j],
            back_handle,
        )
}

/// Builds the deck: enumerates the suit/rank grid once in row-major
/// order, creating for each identity a back face first and then the front
/// face that owns it. The layout is a pure function of the ordered
/// inputs, so it is reproducible exactly.
///
/// The opaque image handles come from the asset collaborator, which the
/// caller has already asked for each key in the same row-major order
/// (see [`front_key`]); the core only stores them.
pub fn build_deck(
    suits: &Vec<Suit>,
    ranks: &Vec<Rank>,
    cfg: &GridConfig,
    front_handles: &Vec<u64>,
    back_handle: u64,
) -> (deck: Deck)
    requires
        suits@.len() == 4,
        ranks@.len() == 13,
        cfg.wf(),
        front_handles@.len() == 52,
    ensures
        deck_built(deck, suits@, ranks@, *cfg, front_handles@, back_handle),
{
    let mut cards: Vec<Card> = Vec::new();
    let mut i: usize = 0;
    while i < 4
        invariant
            0 <= i <= 4,
            suits@.len() == 4,
            ranks@.len() == 13,
            cfg.wf(),
            front_handles@.len() == 52,
            cards@.len() == i * 13,
            forall|a: int, b: int|
                0 <= a < 4 && 0 <= b < 13 && a * 13 + b < cards@.len() ==> #[trigger] card_built(
                    cards@[a * 13 + b],
                    suits@[a],
                    ranks@[b],
                    a,
                    b,
                    *cfg,
                    front_handles@[a * 13 + b],
                    back_handle,
                ),
        decreases 4 - i,
    {
        let mut j: usize = 0;
        while j < 13
            invariant
                0 <= i < 4,
                0 <= j <= 13,
                suits@.len() == 4,
                ranks@.len() == 13,
                cfg.wf(),
                front_handles@.len() == 52,
                cards@.len() == i * 13 + j,
                forall|a: int, b: int|
                    0 <= a < 4 && 0 <= b < 13 && a * 13 + b < cards@.len()
                        ==> #[trigger] card_built(
                        cards@[a * 13 + b],
                        suits@[a],
                        ranks@[b],
                        a,
                        b,
                        *cfg,
                        front_handles@[a * 13 + b],
                        back_handle,
                    ),
            decreases 13 - j,
        {
            proof {
                assert(0 <= (j as int) * (cfg.cell_width as int) <= 12_000_000)
                    by (nonlinear_arith)
                    requires
                        0 <= j < 13,
                        0 < cfg.cell_width <= 1_000_000,
                ;
                assert(0 <= (i as int) * (cfg.cell_height as int) <= 3_000_000)
                    by (nonlinear_arith)
                    requires
                        0 <= i < 4,
                        0 < cfg.cell_height <= 1_000_000,
                ;
            }
            let x: i64 = (j as i64) * cfg.cell_width;
            let y: i64 = (i as i64) * cfg.cell_height;
            let k: usize = i * 13 + j;
            let back = BackFace {
                handle: back_handle,
                pos: Position { x, y, z: BACK_DEPTH },
            };
            let card = Card {
                suit: suits[i],
                rank: ranks[j],
                handle: front_handles[k],
                key: front_key(suits[i], ranks[j]),
                pos: Position { x, y, z: FRONT_DEPTH },
                back,
            };
            cards.push(card);
            j += 1;
        }
        i += 1;
    }
    Deck { cards }
}

/// The handles a deck is built from once every face image resolved.
pub open spec fn unwrapped_handles(s: Seq<Option<u64>>) -> Seq<u64> {
    Seq::new(
        s.len(),
        |k: int|
            match s[k] {
                Option::Some(h) => h,
                Option::None => 0,
            },
    )
}

/// Whether the asset collaborator resolved every required face image.
pub open spec fn all_faces_resolved(front_handles: Seq<Option<u64>>, back_handle: Option<
    u64,
>) -> bool {
    &&& back_handle is Some
    &&& forall|k: int| 0 <= k < front_handles.len() ==> front_handles[k] is Some
}

/// Builds the deck once the asset collaborator has answered for every
/// face image, and aborts construction with `AssetMissing` if any answer
/// is missing, rather than produce a partially resolved deck.
pub fn build_deck_checked(
    suits: &Vec<Suit>,
    ranks: &Vec<Rank>,
    cfg: &GridConfig,
    front_handles: &Vec<Option<u64>>,
    back_handle: Option<u64>,
) -> (r: Result<Deck, DeckError>)
    requires
        suits@.len() == 4,
        ranks@.len() == 13,
        cfg.wf(),
        front_handles@.len() == 52,
    ensures
        r is Ok <==> all_faces_resolved(front_handles@, back_handle),
        r matches Ok(deck) ==> back_handle matches Some(bh) && deck_built(
            deck,
            suits@,
            ranks@,
            *cfg,
            unwrapped_handles(front_handles@),
            bh,
        ),
        r matches Err(e) ==> e == DeckError::AssetMissing,
{
    let back: u64 = match back_handle {
        Option::Some(b) => b,
        Option::None => {
            return Result::Err(DeckError::AssetMissing);
        },
    };
    let mut handles: Vec<u64> = Vec::new();
    let mut k: usize = 0;
    while k < 52
        invariant
            0 <= k <= 52,
            front_handles@.len() == 52,
            handles@.len() == k,
            forall|m: int|
                0 <= m < k ==> (#[trigger] front_handles@[m]) is Some && handles@[m]
                    == unwrapped_handles(front_handles@)[m],
        decreases 52 - k,
    {
        match front_handles[k] {
            Option::Some(h) => {
                handles.push(h);
                proof {
                    assert(front_handles@[k as int] is Some);
                    assert(handles@[k as int] == unwrapped_handles(front_handles@)[k as int]);
                }
            },
            Option::None => {
                return Result::Err(DeckError::AssetMissing);
            },
        }
        k += 1;
    }
    proof {
        assert(handles@ =~= unwrapped_handles(front_handles@));
    }
    Result::Ok(build_deck(suits, ranks, cfg, &handles, back))
}

/// Splits a card index into its suit row `k / 13` and rank column
/// `k % 13`.
pub proof fn lemma_card_index_split(k: int)
    requires
        0 <= k < 52,
    ensures
        0 <= k / 13 < 4,
        0 <= k % 13 < 13,
        k == (k / 13) * 13 + k % 13,
{
}

/// Law: the deck contains every identity of the suit/rank grid exactly
/// once. The card in suit-row `i` and rank-column `j` bears identity
/// `(suits[i], ranks[j])`, and when the suit and rank orderings are free
/// of repeats, no two distinct cards share an identity.
pub proof fn lemma_deck_identities(
    deck: Deck,
    suits: Seq<Suit>,
    ranks: Seq<Rank>,
    cfg: GridConfig,
    front_handles: Seq<u64>,
    back_handle: u64,
)
    requires
        deck_built(deck, suits, ranks, cfg, front_handles, back_handle),
        suits.len() == 4,
        ranks.len() == 13,
        forall|x: int, y: int| 0 <= x < y < suits.len() ==> suits[x] != suits[y],
        forall|x: int, y: int| 0 <= x < y < ranks.len() ==> ranks[x] != ranks[y],
    ensures
        forall|i: int, j: int|
            #![trigger suits[i], ranks[j]]
            0 <= i < 4 && 0 <= j < 13 ==> deck.cards@[i * 13 + j].suit == suits[i] && deck.cards@[i
                * 13 + j].rank == ranks[j],
        forall|k1: int, k2: int|
            #![trigger deck.cards@[k1], deck.cards@[k2]]
            0 <= k1 < 52 && 0 <= k2 < 52 && k1 != k2 ==> !(deck.cards@[k1].suit
                == deck.cards@[k2].suit && deck.cards@[k1].rank == deck.cards@[k2].rank),
{
    assert forall|i: int, j: int|
        #![trigger suits[i], ranks[j]]
        0 <= i < 4 && 0 <= j < 13 implies deck.cards@[i * 13 + j].suit == suits[i] && deck.cards@[i
        * 13 + j].rank == ranks[j] by {
        assert(card_built(
            deck.cards@[i * 13 + j],
            suits[i],
            ranks[j],
            i,
            j,
            cfg,
            front_handles[i * 13 + j],
            back_handle,
        ));
    }
    assert forall|k1: int, k2: int|
        #![trigger deck.cards@[k1], deck.cards@[k2]]
        0 <= k1 < 52 && 0 <= k2 < 52 && k1 != k2 implies !(deck.cards@[k1].suit
        == deck.cards@[k2].suit && deck.cards@[k1].rank == deck.cards@[k2].rank) by {
        let i1 = k1 / 13;
        let j1 = k1 % 13;
        let i2 = k2 / 13;
        let j2 = k2 % 13;
        lemma_card_index_split(k1);
        lemma_card_index_split(k2);
        assert(card_built(
            deck.cards@[i1 * 13 + j1],
            suits[i1],
            ranks[j1],
            i1,
            j1,
            cfg,
            front_handles[i1 * 13 + j1],
            back_handle,
        ));
        assert(card_built(
            deck.cards@[i2 * 13 + j2],
            suits[i2],
            ranks[j2],
            i2,
            j2,
            cfg,
            front_handles[i2 * 13 + j2],
            back_handle,
        ));
        if deck.cards@[k1].suit == deck.cards@[k2].suit && deck.cards@[k1].rank
            == deck.cards@[k2].rank {
            if i1 < i2 {
                assert(suits[i1] != suits[i2]);
            } else if i2 < i1 {
                assert(suits[i2] != suits[i1]);
            }
            assert(i1 == i2);
            if j1 < j2 {
                assert(ranks[j1] != ranks[j2]);
            } else if j2 < j1 {
                assert(ranks[j2] != ranks[j1]);
            }
            assert(j1 == j2);
            assert(k1 == k2);
        }
    }
}

/// Law: no two distinct cards of a built deck share a position.
pub proof fn lemma_positions_unique(
    deck: Deck,
    suits: Seq<Suit>,
    ranks: Seq<Rank>,
    cfg: GridConfig,
    front_handles: Seq<u64>,
    back_handle: u64,
)
    requires
        deck_built(deck, suits, ranks, cfg, front_handles, back_handle),
        cfg.wf(),
    ensures
        forall|k1: int, k2: int|
            #![trigger deck.cards@[k1], deck.cards@[k2]]
            0 <= k1 < 52 && 0 <= k2 < 52 && k1 != k2 ==> deck.cards@[k1].pos
                != deck.cards@[k2].pos,
{
    assert forall|k1: int, k2: int|
        #![trigger deck.cards@[k1], deck.cards@[k2]]
        0 <= k1 < 52 && 0 <= k2 < 52 && k1 != k2 implies deck.cards@[k1].pos
        != deck.cards@[k2].pos by {
        let i1 = k1 / 13;
        let j1 = k1 % 13;
        let i2 = k2 / 13;
        let j2 = k2 % 13;
        lemma_card_index_split(k1);
        lemma_card_index_split(k2);
        assert(card_built(
            deck.cards@[i1 * 13 + j1],
            suits[i1],
            ranks[j1],
            i1,
            j1,
            cfg,
            front_handles[i1 * 13 + j1],
            back_handle,
        ));
        assert(card_built(
            deck.cards@[i2 * 13 + j2],
            suits[i2],
            ranks[j2],
            i2,
            j2,
            cfg,
            front_handles[i2 * 13 + j2],
            back_handle,
        ));
        if i1 != i2 {
            assert((i1 - i2) * cfg.cell_height != 0) by (nonlinear_arith)
                requires
                    i1 != i2,
                    cfg.cell_height > 0,
            ;
            assert(i1 * (cfg.cell_height as int) != i2 * (cfg.cell_height as int))
                by (nonlinear_arith)
                requires
                    i1 != i2,
                    cfg.cell_height > 0,
            ;
        } else {
            assert(j1 != j2);
            assert(j1 * (cfg.cell_width as int) != j2 * (cfg.cell_width as int))
                by (nonlinear_arith)
                requires
                    j1 != j2,
                    cfg.cell_width > 0,
            ;
        }
    }
}

/// Law: layout is deterministic. Two decks built from the same ordered
/// inputs agree on every card: identity, position, asset key and both
/// face handles.
pub proof fn lemma_layout_deterministic(
    d1: Deck,
    d2: Deck,
    suits: Seq<Suit>,
    ranks: Seq<Rank>,
    cfg: GridConfig,
    front_handles: Seq<u64>,
    back_handle: u64,
)
    requires
        deck_built(d1, suits, ranks, cfg, front_handles, back_handle),
        deck_built(d2, suits, ranks, cfg, front_handles, back_handle),
    ensures
        d1.cards@.len() == d2.cards@.len(),
        forall|k: int|
            #![trigger d1.cards@[k], d2.cards@[k]]
            0 <= k < 52 ==> d1.cards@[k].pos == d2.cards@[k].pos && d1.cards@[k].suit
                == d2.cards@[k].suit && d1.cards@[k].rank == d2.cards@[k].rank && d1.cards@[k].key@
                == d2.cards@[k].key@ && d1.cards@[k].handle == d2.cards@[k].handle
                && d1.cards@[k].back == d2.cards@[k].back,
{
    assert forall|k: int|
        #![trigger d1.cards@[k], d2.cards@[k]]
        0 <= k < 52 implies d1.cards@[k].pos == d2.cards@[k].pos && d1.cards@[k].suit
        == d2.cards@[k].suit && d1.cards@[k].rank == d2.cards@[k].rank && d1.cards@[k].key@
        == d2.cards@[k].key@ && d1.cards@[k].handle == d2.cards@[k].handle && d1.cards@[k].back
        == d2.cards@[k].back by {
        let i = k / 13;
        let j = k % 13;
        lemma_card_index_split(k);
        assert(card_built(
            d1.cards@[i * 13 + j],
            suits[i],
            ranks[j],
            i,
            j,
            cfg,
            front_handles[i * 13 + j],
            back_handle,
        ));
        assert(card_built(
            d2.cards@[i * 13 + j],
            suits[i],
            ranks[j],
            i,
            j,
            cfg,
            front_handles[i * 13 + j],
            back_handle,
        ));
    }
}

} // verus!
