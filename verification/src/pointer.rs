//! The pointer resolver: converts a pointer position in viewport pixels
//! into world coordinates through the camera's projection, and resolves
//! a world point to the topmost card whose bounding rectangle contains
//! it.

use vstd::prelude::*;
use vstd::arithmetic::div_mod::lemma_div_nonincreasing;
use crate::layout::{Card, Deck, GridConfig, Position, card_built, deck_built};
use crate::catalog::{Suit, Rank};

verus! {

/// Bound on viewport extents, in pixels or world units.
pub const EXTENT_LIMIT: i64 = 1_000_000;

/// Bound on camera centers and card coordinates, in world units.
pub const COORD_LIMIT: i64 = 1_000_000_000_000;

/// Default widest world extent the camera may show.
pub const MAX_VIEW_WIDTH: i64 = 3800;

/// Default tallest world extent the camera may show.
pub const MAX_VIEW_HEIGHT: i64 = 2100;

/// The camera: a world position to center on, and an auto-max
/// projection that shows the largest world rectangle of the viewport's
/// aspect ratio that stays within the given extents.
#[derive(Clone, Copy, PartialEq, Eq, Structural, Debug)]
pub struct Camera {
    pub center_x: i64,
    pub center_y: i64,
    pub max_width: i64,
    pub max_height: i64,
}

impl Camera {
    pub open spec fn wf(self) -> bool {
        &&& 0 < self.max_width <= EXTENT_LIMIT
        &&& 0 < self.max_height <= EXTENT_LIMIT
        &&& -COORD_LIMIT <= self.center_x <= COORD_LIMIT
        &&& -COORD_LIMIT <= self.center_y <= COORD_LIMIT
    }
}

/// The active viewport's size in pixels.
#[derive(Clone, Copy, PartialEq, Eq, Structural, Debug)]
pub struct Viewport {
    pub width: i64,
    pub height: i64,
}

impl Viewport {
    pub open spec fn wf(self) -> bool {
        &&& 0 < self.width <= EXTENT_LIMIT
        &&& 0 < self.height <= EXTENT_LIMIT
    }
}

/// A planar world point; the scene is flat, so depth is discarded.
#[derive(Clone, Copy, PartialEq, Eq, Structural, Debug)]
pub struct WorldPoint {
    pub x: i64,
    pub y: i64,
}

/// Width of the world rectangle the camera shows: the full allowed width
/// when the viewport is at least as wide as the allowed aspect, else
/// scaled down to the viewport's aspect.
pub open spec fn shown_width_spec(cam: Camera, vp: Viewport) -> int {
    if (vp.width as int) * (cam.max_height as int) >= (vp.height as int) * (cam.max_width as int) {
        cam.max_width as int
    } else {
        (cam.max_height as int) * (vp.width as int) / (vp.height as int)
    }
}

/// Height of the world rectangle the camera shows.
pub open spec fn shown_height_spec(cam: Camera, vp: Viewport) -> int {
    if (vp.width as int) * (cam.max_height as int) >= (vp.height as int) * (cam.max_width as int) {
        (cam.max_width as int) * (vp.height as int) / (vp.width as int)
    } else {
        cam.max_height as int
    }
}

/// World x of a pointer column: the shown rectangle's left edge plus the
/// column's share of the shown width.
pub open spec fn world_x_spec(cam: Camera, vp: Viewport, px: int) -> int {
    cam.center_x as int - shown_width_spec(cam, vp) / 2 + px * shown_width_spec(cam, vp) / (
    vp.width as int)
}

/// World y of a pointer row: pixel rows grow downwards while world y
/// grows upwards, so the row's share of the shown height is taken off
/// the shown rectangle's top edge.
pub open spec fn world_y_spec(cam: Camera, vp: Viewport, py: int) -> int {
    cam.center_y as int + shown_height_spec(cam, vp) / 2 - py * shown_height_spec(cam, vp) / (
    vp.height as int)
}

/// The world point a pointer position resolves to: none without a
/// registered camera or with the pointer outside the viewport.
pub open spec fn resolve_world_spec(px: int, py: int, cam: Option<Camera>, vp: Viewport) -> Option<
    WorldPoint,
> {
    match cam {
        Option::None => Option::None,
        Option::Some(c) => {
            if 0 <= px < vp.width && 0 <= py < vp.height {
                Option::Some(
                    WorldPoint {
                        x: world_x_spec(c, vp, px) as i64,
                        y: world_y_spec(c, vp, py) as i64,
                    },
                )
            } else {
                Option::None
            }
        },
    }
}

/// The camera value behind an optional borrow.
pub open spec fn camera_of(cam: Option<&Camera>) -> Option<Camera> {
    match cam {
        Option::None => Option::None,
        Option::Some(c) => Option::Some(*c),
    }
}

/// Converts a pointer position in viewport pixels to world coordinates:
/// none without a registered camera or with the pointer outside the
/// viewport, else the point under the pointer in the world rectangle the
/// camera shows. Read-only: neither camera nor viewport is touched.
pub fn resolve_world(pointer_x: i64, pointer_y: i64, camera: Option<&Camera>, vp: &Viewport) -> (r:
    Option<WorldPoint>)
    requires
        vp.wf(),
        camera matches Option::Some(c) ==> c.wf(),
    ensures
        r == resolve_world_spec(pointer_x as int, pointer_y as int, camera_of(camera), *vp),
        r is Some <==> (camera is Some && 0 <= pointer_x < vp.width && 0 <= pointer_y < vp.height),
{
    let c: &Camera = match camera {
        Option::Some(c) => c,
        Option::None => {
            return Option::None;
        },
    };
    if pointer_x < 0 || pointer_x >= vp.width || pointer_y < 0 || pointer_y >= vp.height {
        return Option::None;
    }
    let w = vp.width as u64;
    let h = vp.height as u64;
    let mw = c.max_width as u64;
    let mh = c.max_height as u64;
    let px = pointer_x as u64;
    let py = pointer_y as u64;
    proof {
        assert((w as int) * (mh as int) <= 1_000_000_000_000 && (h as int) * (mw as int)
            <= 1_000_000_000_000 && (mh as int) * (w as int) <= 1_000_000_000_000 && (mw as int) * (
        h as int) <= 1_000_000_000_000) by (nonlinear_arith)
            requires
                0 < w <= 1_000_000,
                0 < h <= 1_000_000,
                0 < mw <= 1_000_000,
                0 < mh <= 1_000_000,
        ;
    }
    let wide: bool = w * mh >= h * mw;
    let sw: u64 = if wide {
        mw
    } else {
        mh * w / h
    };
    let sh: u64 = if wide {
        mw * h / w
    } else {
        mh
    };
    proof {
        lemma_div_nonincreasing((mh as int) * (w as int), h as int);
        lemma_div_nonincreasing((mw as int) * (h as int), w as int);
        assert(sw as int == shown_width_spec(*c, *vp));
        assert(sh as int == shown_height_spec(*c, *vp));
        assert((px as int) * (sw as int) <= 1_000_000_000_000_000_000) by (nonlinear_arith)
            requires
                0 <= px <= 1_000_000,
                0 <= sw <= 1_000_000_000_000,
        ;
        assert((py as int) * (sh as int) <= 1_000_000_000_000_000_000) by (nonlinear_arith)
            requires
                0 <= py <= 1_000_000,
                0 <= sh <= 1_000_000_000_000,
        ;
        lemma_div_nonincreasing((px as int) * (sw as int), w as int);
        lemma_div_nonincreasing((py as int) * (sh as int), h as int);
    }
    let off_x: u64 = px * sw / w;
    let off_y: u64 = py * sh / h;
    let x: i64 = c.center_x - (sw / 2) as i64 + off_x as i64;
    let y: i64 = c.center_y + (sh / 2) as i64 - off_y as i64;
    Option::Some(WorldPoint { x, y })
}

/// Whether the axis-aligned card rectangle with its top-left corner at
/// `pos` and the given sprite size contains the point. The corner itself
/// is inside; the far edges are outside.
pub open spec fn rect_contains(pos: Position, w: int, h: int, px: int, py: int) -> bool {
    &&& pos.x <= px < pos.x as int + w
    &&& pos.y <= py < pos.y as int + h
}

/// The card a world point resolves to among the first `cards`: the
/// topmost (highest depth, and latest-placed among equals) whose
/// rectangle contains the point.
pub open spec fn hit_spec(cards: Seq<Card>, w: int, h: int, px: int, py: int) -> Option<int>
    decreases cards.len(),
{
    if cards.len() == 0 {
        Option::None
    } else {
        let last = cards.len() - 1;
        let rest = hit_spec(cards.drop_last(), w, h, px, py);
        if rect_contains(cards[last].pos, w, h, px, py) {
            match rest {
                Option::None => Option::Some(last as int),
                Option::Some(m) => {
                    if cards[m].pos.z <= cards[last].pos.z {
                        Option::Some(last as int)
                    } else {
                        Option::Some(m)
                    }
                },
            }
        } else {
            rest
        }
    }
}

/// Cards whose coordinates stay within the world coordinate bound.
pub open spec fn positions_bounded(cards: Seq<Card>) -> bool {
    forall|k: int|
        0 <= k < cards.len() ==> -COORD_LIMIT <= #[trigger] cards[k].pos.x <= COORD_LIMIT
            && -COORD_LIMIT <= cards[k].pos.y <= COORD_LIMIT
}

/// Law: what the resolved hit means. A resolved index is in range, its
/// card's rectangle contains the point, and every other containing card
/// is either lower or equally deep but placed earlier; no resolved index
/// means no card's rectangle contains the point.
pub proof fn lemma_hit_spec_sound(cards: Seq<Card>, w: int, h: int, px: int, py: int)
    ensures
        hit_spec(cards, w, h, px, py) matches Option::Some(m) ==> 0 <= m < cards.len()
            && rect_contains(cards[m].pos, w, h, px, py) && forall|n: int|
            0 <= n < cards.len() && rect_contains(#[trigger] cards[n].pos, w, h, px, py)
                ==> cards[n].pos.z < cards[m].pos.z || (cards[n].pos.z == cards[m].pos.z && n <= m),
        hit_spec(cards, w, h, px, py) is None ==> forall|n: int|
            0 <= n < cards.len() ==> !rect_contains(#[trigger] cards[n].pos, w, h, px, py),
    decreases cards.len(),
{
    if cards.len() > 0 {
        lemma_hit_spec_sound(cards.drop_last(), w, h, px, py);
        assert(forall|n: int|
            0 <= n < cards.len() - 1 ==> cards.drop_last()[n] == #[trigger] cards[n]);
    }
}

/// Law: with sprites the size of a grid cell, the top-left corner of a
/// built deck's card is contained in that card's rectangle and in no
/// other, so the corner resolves to exactly that card.
pub proof fn lemma_corner_resolves(
    deck: Deck,
    suits: Seq<Suit>,
    ranks: Seq<Rank>,
    cfg: GridConfig,
    front_handles: Seq<u64>,
    back_handle: u64,
    k: int,
)
    requires
        deck_built(deck, suits, ranks, cfg, front_handles, back_handle),
        cfg.wf(),
        0 <= k < 52,
    ensures
        rect_contains(
            deck.cards@[k].pos,
            cfg.cell_width as int,
            cfg.cell_height as int,
            deck.cards@[k].pos.x as int,
            deck.cards@[k].pos.y as int,
        ),
        forall|m: int|
            0 <= m < 52 && m != k ==> !rect_contains(
                #[trigger] deck.cards@[m].pos,
                cfg.cell_width as int,
                cfg.cell_height as int,
                deck.cards@[k].pos.x as int,
                deck.cards@[k].pos.y as int,
            ),
        hit_spec(
            deck.cards@,
            cfg.cell_width as int,
            cfg.cell_height as int,
            deck.cards@[k].pos.x as int,
            deck.cards@[k].pos.y as int,
        ) == Option::Some(k),
{
    let cw = cfg.cell_width as int;
    let ch = cfg.cell_height as int;
    let i = k / 13;
    let j = k % 13;
    crate::layout::lemma_card_index_split(k);
    assert(card_built(
        deck.cards@[i * 13 + j],
        suits[i],
        ranks[j],
        i,
        j,
        cfg,
        front_handles[i * 13 + j],
        back_handle,
    ));
    let px = deck.cards@[k].pos.x as int;
    let py = deck.cards@[k].pos.y as int;
    assert forall|m: int| 0 <= m < 52 && m != k implies !rect_contains(
        #[trigger] deck.cards@[m].pos,
        cw,
        ch,
        px,
        py,
    ) by {
        let mi = m / 13;
        let mj = m % 13;
        crate::layout::lemma_card_index_split(m);
        assert(card_built(
            deck.cards@[mi * 13 + mj],
            suits[mi],
            ranks[mj],
            mi,
            mj,
            cfg,
            front_handles[mi * 13 + mj],
            back_handle,
        ));
        if rect_contains(deck.cards@[m].pos, cw, ch, px, py) {
            assert(mj * cw <= j * cw < mj * cw + cw);
            assert(mi * ch <= i * ch < mi * ch + ch);
            assert(mj == j) by (nonlinear_arith)
                requires
                    mj * cw <= j * cw < mj * cw + cw,
                    cw > 0,
            ;
            assert(mi == i) by (nonlinear_arith)
                requires
                    mi * ch <= i * ch < mi * ch + ch,
                    ch > 0,
            ;
            assert(m == k);
        }
    }
    lemma_hit_spec_sound(deck.cards@, cw, ch, px, py);
    let r = hit_spec(deck.cards@, cw, ch, px, py);
    if r is None {
        assert(!rect_contains(deck.cards@[k].pos, cw, ch, px, py));
    }
}

/// Resolves a world point to the topmost card whose bounding rectangle
/// (top-left corner at the card's position, sprite size `card_w` by
/// `card_h`) contains it, preferring the latest-placed among equally
/// deep cards; none if no card's rectangle contains the point.
/// Read-only: no card is touched.
pub fn resolve_hit(point: &WorldPoint, deck: &Deck, card_w: i64, card_h: i64) -> (r: Option<usize>)
    requires
        0 < card_w <= EXTENT_LIMIT,
        0 < card_h <= EXTENT_LIMIT,
        positions_bounded(deck.cards@),
    ensures
        r matches Option::Some(k) ==> hit_spec(
            deck.cards@,
            card_w as int,
            card_h as int,
            point.x as int,
            point.y as int,
        ) == Option::Some(k as int),
        r is None ==> hit_spec(
            deck.cards@,
            card_w as int,
            card_h as int,
            point.x as int,
            point.y as int,
        ) is None,
        r matches Option::Some(k) ==> 0 <= k < deck.cards@.len() && rect_contains(
            deck.cards@[k as int].pos,
            card_w as int,
            card_h as int,
            point.x as int,
            point.y as int,
        ),
        r is None ==> forall|n: int|
            0 <= n < deck.cards@.len() ==> !rect_contains(
                #[trigger] deck.cards@[n].pos,
                card_w as int,
                card_h as int,
                point.x as int,
                point.y as int,
            ),
{
    let ghost gw = card_w as int;
    let ghost gh = card_h as int;
    let ghost gx = point.x as int;
    let ghost gy = point.y as int;
    let mut best: Option<usize> = Option::None;
    let mut k: usize = 0;
    while k < deck.cards.len()
        invariant
            gw == card_w as int,
            gh == card_h as int,
            gx == point.x as int,
            gy == point.y as int,
            0 <= k <= deck.cards@.len(),
            0 < card_w <= EXTENT_LIMIT,
            0 < card_h <= EXTENT_LIMIT,
            positions_bounded(deck.cards@),
            best matches Option::Some(b) ==> b < k,
            (match best {
                Option::Some(b) => Option::Some(b as int),
                Option::None => Option::None,
            }) == hit_spec(deck.cards@.take(k as int), gw, gh, gx, gy),
        decreases deck.cards@.len() - k,
    {
        let c = &deck.cards[k];
        let inside: bool = c.pos.x <= point.x && point.x < c.pos.x + card_w && c.pos.y <= point.y
            && point.y < c.pos.y + card_h;
        proof {
            assert(deck.cards@.take(k as int + 1).drop_last() =~= deck.cards@.take(k as int));
            assert(deck.cards@.take(k as int + 1)[k as int] == deck.cards@[k as int]);
            assert(forall|n: int|
                0 <= n < k ==> deck.cards@.take(k as int + 1)[n] == #[trigger] deck.cards@[n]);
        }
        if inside {
            match best {
                Option::Some(b) => {
                    if deck.cards[b].pos.z <= c.pos.z {
                        best = Option::Some(k);
                    }
                },
                Option::None => {
                    best = Option::Some(k);
                },
            }
        }
        k += 1;
    }
    proof {
        assert(deck.cards@.take(deck.cards@.len() as int) =~= deck.cards@);
        lemma_hit_spec_sound(deck.cards@, gw, gh, gx, gy);
    }
    best
}

} // verus!
