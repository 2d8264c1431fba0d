use rand::rngs::ThreadRng;
use vstd::prelude::*;

use crate::card::{Card, CardKind};
use crate::data::Resources;
use crate::map::{abs_i32, blocks, gatherable, generated, lemma_index_in_range, ExplorationMap, Tile};
use crate::random::{gen_range, shuffle, thread_rng};
use crate::text::{decimal, int_between, append_int};

verus! {

broadcast use {
    vstd::seq_lib::group_to_multiset_ensures,
    vstd::seq_lib::lemma_multiset_commutative,
    vstd::multiset::group_multiset_axioms,
};

/// The state of one expedition: the map, the player, the card piles and the cargo.
#[derive(Debug, Clone)]
pub struct ExpeditionState {
    pub map: ExplorationMap,
    pub player_x: i32,
    pub player_y: i32,
    pub turn: u32,
    pub energy: i32,
    pub deck: Vec<Card>,
    pub hand: Vec<Card>,
    pub discard: Vec<Card>,
    pub cargo: Resources,
    pub enemy_hp: i32,
    pub block: i32,
    pub enemy_move_speed: i32,
    pub enemy_alert_range: i32,
    pub pending_move_card: Option<Card>,
    pub zoom_level: usize,
    /// Scroll position of the map view, in whole pixels.
    pub camera_x: i32,
    pub camera_y: i32,
}

/// The camera offset on one axis once kept inside the scrollable range: zero when the
/// content fits the viewport, else within `0..=content - viewport` (and within `i32`).
pub open spec fn clamp_axis(value: int, content: int, viewport: int) -> int {
    if content <= viewport {
        0
    } else {
        let limit = if content - viewport > i32::MAX { i32::MAX as int } else { content - viewport };
        if value < 0 {
            0
        } else if value > limit {
            limit
        } else {
            value
        }
    }
}

/// Keeps a camera offset inside the scrollable range of one axis.
pub fn clamp_camera_axis(value: i32, content_size: usize, viewport_size: usize) -> (r: i32)
    ensures
        r == clamp_axis(value as int, content_size as int, viewport_size as int),
{
    if content_size <= viewport_size {
        0
    } else {
        let span = content_size - viewport_size;
        let limit: i32 = if span > 2147483647usize { 2147483647 } else { span as i32 };
        if value < 0 {
            0
        } else if value > limit {
            limit
        } else {
            value
        }
    }
}

/// Where the content starts on one axis: centred when it fits, else scrolled by the camera.
pub open spec fn origin_axis(content: int, viewport: int, camera: int) -> int {
    if content <= viewport {
        ((viewport - content) / 2) as i32 as int
    } else {
        -camera
    }
}

/// `s` with position `(x, y)` added when it lies inside the map.
pub open spec fn keep_in(m: ExplorationMap, s: Seq<(i32, i32)>, x: int, y: int) -> Seq<(i32, i32)> {
    if m.in_bounds(x, y) {
        s.push((x as i32, y as i32))
    } else {
        s
    }
}

/// The five gathering positions (the player's own and the four neighbours), in this order,
/// without those outside the map.
pub open spec fn gather_cells(m: ExplorationMap, px: int, py: int) -> Seq<(i32, i32)> {
    keep_in(
        m,
        keep_in(
            m,
            keep_in(m, keep_in(m, keep_in(m, Seq::empty(), px, py), px + 1, py), px - 1, py),
            px,
            py + 1,
        ),
        px,
        py - 1,
    )
}

/// `(a, b)` is the player's position or one of its four neighbours.
pub open spec fn in_gather_area(px: int, py: int, a: int, b: int) -> bool {
    (a == px && b == py) || crate::map::adjacent((px, py), (a, b))
}

impl ExpeditionState {
    pub open spec fn wf(&self) -> bool {
        &&& self.map.wf()
        &&& self.map.in_bounds(self.player_x as int, self.player_y as int)
    }

    pub open spec fn player(&self) -> (int, int) {
        (self.player_x as int, self.player_y as int)
    }

    /// Every card the expedition carries: the piles and a movement card waiting for its
    /// destination.
    pub open spec fn carried(&self) -> Seq<Card> {
        match self.pending_move_card {
            Some(c) => self.all_cards().push(c),
            None => self.all_cards(),
        }
    }

    /// All cards of the expedition: draw pile, then hand, then discard pile.
    pub open spec fn all_cards(&self) -> Seq<Card> {
        self.deck@ + self.hand@ + self.discard@
    }

    /// Whether a move card of the given range can take the player to `(x, y)`: the target
    /// is inside the map, passable, not the player's own position, and reachable in at
    /// most `range` steps through passable tiles.
    pub fn can_move_to(&self, x: i32, y: i32, range: i32) -> (b: bool)
        requires
            self.wf(),
        ensures
            b == (self.map.passable(x as int, y as int) && (x != self.player_x || y
                != self.player_y) && self.map.reach(
                self.player(),
                (x as int, y as int),
                if range > 0 { range as nat } else { 0 },
            )),
    {
        if x < 0 || y < 0 || x >= self.map.width || y >= self.map.height {
            return false;
        }
        if self.map.is_blocking(x, y) {
            return false;
        }
        self.map.within_steps(self.player_x, self.player_y, x, y, range)
    }

    /// The positions a gathering card collects from: the player's tile and its four
    /// neighbours, in that order, leaving out those outside the map.
    pub fn gather_range_tiles(&self) -> (v: Vec<(i32, i32)>)
        requires
            self.wf(),
        ensures
            v@ == gather_cells(self.map, self.player_x as int, self.player_y as int),
    {
        let px = self.player_x;
        let py = self.player_y;
        let mut v: Vec<(i32, i32)> = Vec::new();
        v.push((px, py));
        if px + 1 < self.map.width {
            v.push((px + 1, py));
        }
        if px - 1 >= 0 {
            v.push((px - 1, py));
        }
        if py + 1 < self.map.height {
            v.push((px, py + 1));
        }
        if py - 1 >= 0 {
            v.push((px, py - 1));
        }
        v
    }
}

/// Some gathering position holds wood, stone or berries.
pub open spec fn has_targets(m: ExplorationMap, cells: Seq<(i32, i32)>) -> bool {
    exists|i: int| 0 <= i < cells.len() && gatherable(#[trigger] m.tile(cells[i].0 as int, cells[i].1 as int))
}

impl ExpeditionState {
    /// Whether a gathering card would collect anything here.
    pub fn has_gather_targets(&self) -> (b: bool)
        requires
            self.wf(),
        ensures
            b == has_targets(self.map, gather_cells(self.map, self.player_x as int, self.player_y as int)),
    {
        let cells = self.gather_range_tiles();
        let mut i: usize = 0;
        while i < cells.len()
            invariant
                self.wf(),
                cells@ == gather_cells(self.map, self.player_x as int, self.player_y as int),
                i <= cells.len(),
                forall|j: int| 0 <= j < i ==> !gatherable(#[trigger] self.map.tile(cells@[j].0 as int, cells@[j].1 as int)),
            decreases cells.len() - i,
        {
            let (x, y) = cells[i];
            proof { self.lemma_gather_cells(); }
            let t = self.map.tile_at(x, y);
            if t == Tile::Forest || t == Tile::Stone || t == Tile::Berry {
                return true;
            }
            i = i + 1;
        }
        false
    }

    /// The gathering positions are inside the map, pairwise different, and are exactly the
    /// positions of the gathering area that lie inside the map.
    pub proof fn lemma_gather_cells(&self)
        requires
            self.wf(),
        ensures
            ({
                let c = gather_cells(self.map, self.player_x as int, self.player_y as int);
                &&& c.len() <= 5
                &&& forall|i: int|
                    0 <= i < c.len() ==> self.map.in_bounds(#[trigger] c[i].0 as int, c[i].1 as int)
                        && in_gather_area(self.player_x as int, self.player_y as int, c[i].0 as int, c[i].1 as int)
                &&& forall|i: int, j: int| 0 <= i < j < c.len() ==> #[trigger] c[i] != #[trigger] c[j]
                &&& forall|a: int, b: int|
                    self.map.in_bounds(a, b) ==> (#[trigger] c.contains((a as i32, b as i32))
                        == in_gather_area(self.player_x as int, self.player_y as int, a, b))
            }),
    {
        let m = self.map;
        let px = self.player_x as int;
        let py = self.player_y as int;
        let s0 = keep_in(m, Seq::empty(), px, py);
        let s1 = keep_in(m, s0, px + 1, py);
        let s2 = keep_in(m, s1, px - 1, py);
        let s3 = keep_in(m, s2, px, py + 1);
        let c = keep_in(m, s3, px, py - 1);
        assert forall|a: int, b: int| self.map.in_bounds(a, b) implies (#[trigger] c.contains((a as i32, b as i32))
            == in_gather_area(px, py, a, b)) by {
            if in_gather_area(px, py, a, b) {
                if a == px && b == py {
                    assert(s0[0] == (a as i32, b as i32));
                    assert(c[0] == s0[0]);
                } else if a == px + 1 {
                    assert(s1[s1.len() - 1] == (a as i32, b as i32));
                    assert(c[s1.len() - 1] == s1[s1.len() - 1]);
                } else if a == px - 1 {
                    assert(s2[s2.len() - 1] == (a as i32, b as i32));
                    assert(c[s2.len() - 1] == s2[s2.len() - 1]);
                } else if b == py + 1 {
                    assert(s3[s3.len() - 1] == (a as i32, b as i32));
                    assert(c[s3.len() - 1] == s3[s3.len() - 1]);
                } else {
                    assert(c[c.len() - 1] == (a as i32, b as i32));
                }
            } else {
                if c.contains((a as i32, b as i32)) {
                    let k = choose|k: int| 0 <= k < c.len() && c[k] == (a as i32, b as i32);
                    assert(false);
                }
            }
        }
    }

    /// Pixel size of one map tile at the current zoom.
    pub fn tile_size(&self) -> (s: usize)
        requires
            12 + self.zoom_level * 4 <= usize::MAX,
        ensures
            s == 12 + self.zoom_level * 4,
    {
        12 + self.zoom_level * 4
    }

    /// Pixel size of the whole map at the current zoom.
    pub fn content_size(&self) -> (size: (usize, usize))
        requires
            self.view_fits(),
        ensures
            size.0 == (if self.map.width > 0 { self.map.width as int } else { 0 }) * (12 + self.zoom_level * 4),
            size.1 == (if self.map.height > 0 { self.map.height as int } else { 0 }) * (12 + self.zoom_level * 4),
    {
        let t = self.tile_size();
        let w: usize = if self.map.width > 0 { self.map.width as usize } else { 0 };
        let h: usize = if self.map.height > 0 { self.map.height as usize } else { 0 };
        (w * t, h * t)
    }

    /// Screen position of the map's top-left corner in a viewport: centred on an axis where
    /// the map fits, else shifted by the camera.
    pub fn origin(&self, viewport_width: usize, viewport_height: usize) -> (o: (i32, i32))
        requires
            self.view_fits(),
            self.camera_x > i32::MIN,
            self.camera_y > i32::MIN,
        ensures
            o.0 == origin_axis(self.content_size_spec().0, viewport_width as int, self.camera_x as int),
            o.1 == origin_axis(self.content_size_spec().1, viewport_height as int, self.camera_y as int),
    {
        let (content_width, content_height) = self.content_size();
        let x = if content_width <= viewport_width {
            ((viewport_width - content_width) / 2) as i32
        } else {
            -self.camera_x
        };
        let y = if content_height <= viewport_height {
            ((viewport_height - content_height) / 2) as i32
        } else {
            -self.camera_y
        };
        (x, y)
    }

    /// The map's pixel size at the current zoom fits in `usize`.
    pub open spec fn view_fits(&self) -> bool {
        &&& 12 + self.zoom_level * 4 <= usize::MAX
        &&& self.content_size_spec().0 <= usize::MAX
        &&& self.content_size_spec().1 <= usize::MAX
    }

    pub open spec fn content_size_spec(&self) -> (int, int) {
        (
            (if self.map.width > 0 { self.map.width as int } else { 0 }) * (12 + self.zoom_level * 4),
            (if self.map.height > 0 { self.map.height as int } else { 0 }) * (12 + self.zoom_level * 4),
        )
    }

    /// Keeps the camera inside the scrollable range for a viewport.
    pub fn clamp_camera(&mut self, viewport_width: usize, viewport_height: usize)
        requires
            old(self).view_fits(),
        ensures
            final(self).camera_x == clamp_axis(old(self).camera_x as int, old(self).content_size_spec().0, viewport_width as int),
            final(self).camera_y == clamp_axis(old(self).camera_y as int, old(self).content_size_spec().1, viewport_height as int),
            *final(self) == (ExpeditionState { camera_x: final(self).camera_x, camera_y: final(self).camera_y, ..*old(self) }),
    {
        let (content_width, content_height) = self.content_size();
        self.camera_x = clamp_camera_axis(self.camera_x, content_width, viewport_width);
        self.camera_y = clamp_camera_axis(self.camera_y, content_height, viewport_height);
    }
}

/// The first `n` cards drawn from the top (the end) of a draw pile, in drawing order.
pub open spec fn drawn_from(pile: Seq<Card>, n: int) -> Seq<Card> {
    Seq::new(n as nat, |j: int| pile[pile.len() - 1 - j])
}

/// The piles after a new turn's draw, when the draw pile held at least five cards: the old
/// hand goes onto the discard pile and the top five cards are drawn.
pub open spec fn drew_five_from_deck(before: ExpeditionState, after: ExpeditionState) -> bool {
    &&& after.discard@ == before.discard@ + before.hand@
    &&& after.deck@ == before.deck@.take(before.deck.len() - 5)
    &&& after.hand@ == drawn_from(before.deck@, 5)
}

impl ExpeditionState {
    /// Starts a new turn: 3 energy, no block, the hand is discarded and five cards are
    /// drawn; when the draw pile runs out the discard pile is shuffled into it.
    fn start_turn(&mut self, rng: &mut ThreadRng)
        requires
            old(self).turn < u32::MAX,
        ensures
            final(self).turn == old(self).turn + 1,
            final(self).energy == 3,
            final(self).block == 0,
            final(self).all_cards().to_multiset() == old(self).all_cards().to_multiset(),
            final(self).hand.len() == if old(self).all_cards().len() < 5 { old(self).all_cards().len() } else { 5 },
            old(self).deck.len() >= 5 ==> drew_five_from_deck(*old(self), *final(self)),
            final(self).all_cards().len() < 5 ==> final(self).deck.len() == 0 && final(self).discard.len() == 0,
            *final(self) == (ExpeditionState {
                turn: final(self).turn,
                energy: 3,
                block: 0,
                deck: final(self).deck,
                hand: final(self).hand,
                discard: final(self).discard,
                ..*old(self)
            }),
    {
        let ghost total = old(self).all_cards().to_multiset();
        let ghost od = old(self).deck@;
        let ghost big = old(self).deck.len() >= 5;
        self.turn = self.turn + 1;
        self.energy = 3;
        self.block = 0;
        let mut hand: Vec<Card> = Vec::new();
        std::mem::swap(&mut hand, &mut self.hand);
        self.discard.append(&mut hand);
        proof {
            assert(self.deck@ + hand@ + self.discard@ =~= od + (old(self).discard@ + old(self).hand@));
            assert((old(self).discard@ + old(self).hand@).to_multiset() =~= (old(self).hand@ + old(self).discard@).to_multiset());
            assert(old(self).all_cards() =~= od + (old(self).hand@ + old(self).discard@));
        }
        while hand.len() < 5
            invariant
                hand.len() <= 5,
                (self.deck@ + hand@ + self.discard@).to_multiset() == total,
                big ==> self.deck@ == od.take(od.len() - hand.len()) && self.discard@
                    == old(self).discard@ + old(self).hand@ && hand@ == drawn_from(od, hand.len() as int),
                big == (od.len() >= 5),
                od == old(self).deck@,
                *self == (ExpeditionState {
                    turn: (old(self).turn + 1) as u32,
                    energy: 3,
                    block: 0,
                    deck: self.deck,
                    hand: self.hand,
                    discard: self.discard,
                    ..*old(self)
                }),
            ensures
                (self.deck@ + hand@ + self.discard@).to_multiset() == total,
                hand.len() == 5 || (self.deck.len() == 0 && self.discard.len() == 0),
                big ==> self.deck@ == od.take(od.len() - hand.len()) && self.discard@
                    == old(self).discard@ + old(self).hand@ && hand@ == drawn_from(od, hand.len() as int),
            decreases 5 - hand.len(),
        {
            if self.deck.len() == 0 {
                if self.discard.len() == 0 {
                    break;
                }
                let mut pile: Vec<Card> = Vec::new();
                std::mem::swap(&mut pile, &mut self.discard);
                self.deck.append(&mut pile);
                let ghost unshuffled = self.deck@;
                shuffle(&mut self.deck, rng);
                proof {
                    assert(self.deck@ + hand@ + self.discard@ =~= self.deck@ + hand@);
                    assert((unshuffled + hand@).to_multiset() =~= (hand@ + unshuffled).to_multiset());
                }
            }
            let ghost d0 = self.deck@;
            let card = self.deck.pop().unwrap();
            let ghost h0 = hand@;
            hand.push(card);
            proof {
                assert(d0 =~= self.deck@.push(card));
                assert((d0 + h0 + self.discard@).to_multiset() =~= (self.deck@ + hand@ + self.discard@).to_multiset()) by {
                    assert(d0 + h0 =~= self.deck@ + seq![card] + h0);
                    assert(self.deck@ + hand@ =~= self.deck@ + (h0 + seq![card]));
                    assert((seq![card] + h0).to_multiset() =~= (h0 + seq![card]).to_multiset());
                    assert(self.deck@ + seq![card] + h0 =~= self.deck@ + (seq![card] + h0));
                }
                if big {
                    assert(self.deck@ =~= od.take(od.len() - hand.len()));
                    assert(hand@ =~= drawn_from(od, hand.len() as int));
                }
            }
        }
        self.hand = hand;
        proof {
            let n = old(self).all_cards().len();
            assert(self.all_cards().to_multiset().len() == n);
            if hand.len() < 5 {
                assert(self.all_cards() =~= hand@);
            }
            if self.all_cards().len() < 5 {
                assert(hand.len() < 5);
            }
        }
    }
}

/// A freshly started expedition carrying `cards`: a random 32x32 map generated around the
/// player (see `generated`), with at most one ruin site and the player on ground, all
/// carried cards in the piles, the first hand drawn
/// (five cards, or all when fewer), nothing discarded, empty cargo, turn 1.
pub open spec fn starts_expedition(e: ExpeditionState, cards: Seq<Card>) -> bool {
    &&& e.wf()
    &&& e.map.width == 32
    &&& e.map.height == 32
    &&& e.map.tile(e.player_x as int, e.player_y as int) == Tile::Ground
    &&& e.map.at_most_one_ruin_site()
    &&& generated(32, 32, e.player_x as int, e.player_y as int, e.map)
    &&& e.all_cards().to_multiset() == cards.to_multiset()
    &&& e.hand.len() == if cards.len() < 5 { cards.len() as int } else { 5 }
    &&& e.discard.len() == 0
    &&& e.turn == 1
    &&& e.energy == 3
    &&& e.block == 0
    &&& e.cargo == (Resources { wood: 0, stone: 0, food: 0 })
    &&& e.enemy_hp == 12
    &&& e.enemy_move_speed == 1
    &&& e.enemy_alert_range == 6
    &&& e.pending_move_card.is_none()
    &&& e.zoom_level == 3
    &&& e.camera_x == 0
    &&& e.camera_y == 0
}

impl ExpeditionState {
    /// A new expedition on a random 32x32 map with the given cards, shuffled, as the draw
    /// pile; the player stands at a random position and the first turn has begun.
    pub(crate) fn new(deck: Vec<Card>) -> (e: ExpeditionState)
        ensures
            starts_expedition(e, deck@),
    {
        let mut deck = deck;
        let mut rng = thread_rng();
        shuffle(&mut deck, &mut rng);
        let player_x = gen_range(&mut rng, 0, 32);
        let player_y = gen_range(&mut rng, 0, 32);
        let mut expedition = ExpeditionState {
            map: ExplorationMap::random(32, 32, player_x, player_y),
            player_x,
            player_y,
            turn: 0,
            energy: 0,
            deck,
            hand: Vec::new(),
            discard: Vec::new(),
            cargo: Resources { wood: 0, stone: 0, food: 0 },
            enemy_hp: 12,
            block: 0,
            enemy_move_speed: 1,
            enemy_alert_range: 6,
            pending_move_card: None,
            zoom_level: 3,
            camera_x: 0,
            camera_y: 0,
        };
        proof {
            assert(expedition.all_cards() =~= expedition.deck@);
        }
        let ghost before = expedition;
        expedition.start_turn(&mut rng);
        proof {
            if before.deck.len() >= 5 {
                assert(before.discard@ + before.hand@ =~= Seq::<Card>::empty());
            } else {
                assert(expedition.all_cards().to_multiset().len() == before.all_cards().len());
            }
        }
        expedition
    }
}

/// How much one gathering roll may yield from a tile: 1-5 wood from a forest, 1-2 stone
/// from a stone pile, 1-3 food from a berry bush, nothing elsewhere.
pub open spec fn yield_fits(t: Tile, amount: int) -> bool {
    if t == Tile::Forest {
        1 <= amount <= 5
    } else if t == Tile::Stone {
        1 <= amount <= 2
    } else if t == Tile::Berry {
        1 <= amount <= 3
    } else {
        amount == 0
    }
}

/// Sum of the first `n` yields whose position holds `kind` on map `m`.
pub open spec fn kind_total(
    m: ExplorationMap,
    cells: Seq<(i32, i32)>,
    yields: Seq<i32>,
    kind: Tile,
    n: int,
) -> int
    decreases n,
{
    if n <= 0 {
        0
    } else {
        kind_total(m, cells, yields, kind, n - 1) + if m.tile(cells[n - 1].0 as int, cells[n - 1].1 as int) == kind {
            yields[n - 1] as int
        } else {
            0
        }
    }
}

/// Number of the first `n` positions that hold `kind` on map `m`.
pub open spec fn kind_count(m: ExplorationMap, cells: Seq<(i32, i32)>, kind: Tile, n: int) -> int
    decreases n,
{
    if n <= 0 {
        0
    } else {
        kind_count(m, cells, kind, n - 1) + if m.tile(cells[n - 1].0 as int, cells[n - 1].1 as int) == kind {
            1int
        } else {
            0
        }
    }
}

pub proof fn lemma_kind_total_bounds(
    m: ExplorationMap,
    cells: Seq<(i32, i32)>,
    yields: Seq<i32>,
    kind: Tile,
    lo: int,
    hi: int,
    n: int,
)
    requires
        0 <= n <= cells.len(),
        n <= yields.len(),
        forall|i: int|
            0 <= i < n && m.tile(cells[i].0 as int, cells[i].1 as int) == kind ==> lo <= #[trigger] yields[i] <= hi,
    ensures
        lo * kind_count(m, cells, kind, n) <= kind_total(m, cells, yields, kind, n) <= hi * kind_count(m, cells, kind, n),
        0 <= kind_count(m, cells, kind, n) <= n,
    decreases n,
{
    if n > 0 {
        lemma_kind_total_bounds(m, cells, yields, kind, lo, hi, n - 1);
        let c = kind_count(m, cells, kind, n - 1);
        assert(lo * (c + 1) == lo * c + lo && hi * (c + 1) == hi * c + hi) by (nonlinear_arith);
    }
}

/// The map after gathering: the wood, stone and berry tiles of the gathering area become
/// ground; every other tile stays.
pub open spec fn gathered_map(before: ExplorationMap, after: ExplorationMap, px: int, py: int) -> bool {
    &&& after.wf()
    &&& after.width == before.width
    &&& after.height == before.height
    &&& forall|a: int, b: int|
        before.in_bounds(a, b) ==> #[trigger] after.tile(a, b) == if in_gather_area(px, py, a, b)
            && gatherable(before.tile(a, b)) {
            Tile::Ground
        } else {
            before.tile(a, b)
        }
}

/// The message reporting a gathering: `Gathered W<wood> S<stone> F<food>.`
pub open spec fn gathered_message(wood: int, stone: int, food: int) -> Seq<char> {
    "Gathered W"@ + decimal(wood) + " S"@ + decimal(stone) + " F"@ + decimal(food) + "."@
}

/// Whether applying `card` keeps every counter it touches within `i32`.
pub open spec fn card_fits(e: ExpeditionState, card: Card) -> bool {
    match card.kind {
        CardKind::Gather => e.cargo.wood <= i32::MAX - 25 && e.cargo.stone <= i32::MAX - 10
            && e.cargo.food <= i32::MAX - 15,
        CardKind::Search => e.cargo.food < i32::MAX,
        CardKind::Attack => i32::MIN <= e.enemy_hp - card.value <= i32::MAX,
        CardKind::Defend => i32::MIN <= e.block + card.value <= i32::MAX,
        _ => true,
    }
}

/// What playing `card` does to the expedition and the message it reports, for every
/// outcome of the gathering rolls.
pub open spec fn card_effect(before: ExpeditionState, card: Card, after: ExpeditionState, msg: Seq<char>) -> bool {
    match card.kind {
        CardKind::Move => after == before && msg == "Moved."@,
        CardKind::Gather => {
            let cells = gather_cells(before.map, before.player_x as int, before.player_y as int);
            let n = cells.len() as int;
            let dw = after.cargo.wood - before.cargo.wood;
            let ds = after.cargo.stone - before.cargo.stone;
            let df = after.cargo.food - before.cargo.food;
            &&& gathered_map(before.map, after.map, before.player_x as int, before.player_y as int)
            &&& kind_count(before.map, cells, Tile::Forest, n) <= dw <= 5 * kind_count(before.map, cells, Tile::Forest, n)
            &&& kind_count(before.map, cells, Tile::Stone, n) <= ds <= 2 * kind_count(before.map, cells, Tile::Stone, n)
            &&& kind_count(before.map, cells, Tile::Berry, n) <= df <= 3 * kind_count(before.map, cells, Tile::Berry, n)
            &&& after == (ExpeditionState { map: after.map, cargo: after.cargo, ..before })
            &&& msg == gathered_message(dw, ds, df)
        },
        CardKind::Search => {
            &&& after == (ExpeditionState { cargo: Resources { food: (before.cargo.food + 1) as i32, ..before.cargo }, ..before })
            &&& msg == "\u{6253}\u{51fa}"@ + card.name@ + "\u{ff0c}\u{627e}\u{5230}\u{98df}\u{7269}\u{3002}"@
        },
        CardKind::Attack => {
            let hp = if before.enemy_hp - card.value > 0 { before.enemy_hp - card.value } else { 0 };
            &&& after == (ExpeditionState { enemy_hp: hp as i32, ..before })
            &&& msg == "\u{6253}\u{51fa}"@ + card.name@ + "\u{ff0c}\u{654c}\u{4eba}\u{751f}\u{547d}\u{964d}\u{81f3} "@ + decimal(hp) + "\u{3002}"@
        },
        CardKind::Defend => {
            let b = before.block + card.value;
            &&& after == (ExpeditionState { block: b as i32, ..before })
            &&& msg == "\u{6253}\u{51fa}"@ + card.name@ + "\u{ff0c}\u{683c}\u{6321}\u{63d0}\u{9ad8}\u{81f3} "@ + decimal(b) + "\u{3002}"@
        },
        CardKind::Skill => after == before && msg == "\u{6253}\u{51fa}"@ + card.name@ + "\u{3002}"@,
    }
}

impl ExpeditionState {
    /// One random yield per gathering position, according to the tile there.
    fn roll_yields(&self, rng: &mut ThreadRng) -> (v: Vec<i32>)
        requires
            self.wf(),
        ensures
            ({
                let cells = gather_cells(self.map, self.player_x as int, self.player_y as int);
                &&& v.len() == cells.len()
                &&& forall|i: int|
                    0 <= i < v.len() ==> yield_fits(
                        self.map.tile(cells[i].0 as int, cells[i].1 as int),
                        #[trigger] v@[i] as int,
                    )
            }),
    {
        let cells = self.gather_range_tiles();
        proof { self.lemma_gather_cells(); }
        let mut v: Vec<i32> = Vec::new();
        let mut i: usize = 0;
        while i < cells.len()
            invariant
                self.wf(),
                cells@ == gather_cells(self.map, self.player_x as int, self.player_y as int),
                forall|k: int|
                    0 <= k < cells.len() ==> self.map.in_bounds(#[trigger] cells@[k].0 as int, cells@[k].1 as int),
                i <= cells.len(),
                v.len() == i,
                forall|k: int|
                    0 <= k < i ==> yield_fits(
                        self.map.tile(cells@[k].0 as int, cells@[k].1 as int),
                        #[trigger] v@[k] as int,
                    ),
            decreases cells.len() - i,
        {
            let (x, y) = cells[i];
            let t = self.map.tile_at(x, y);
            let amount = if t == Tile::Forest {
                gen_range(rng, 1, 6)
            } else if t == Tile::Stone {
                gen_range(rng, 1, 3)
            } else if t == Tile::Berry {
                gen_range(rng, 1, 4)
            } else {
                0
            };
            v.push(amount);
            i = i + 1;
        }
        v
    }

    /// Collects the gathering area with the given yields, one per gathering position: the
    /// yield of each wood, stone or berry tile is added to the cargo and the tile becomes
    /// ground. Returns the wood, stone and food gained.
    pub fn gather(&mut self, yields: &Vec<i32>) -> (gained: (i32, i32, i32))
        requires
            old(self).wf(),
            yields.len() == gather_cells(old(self).map, old(self).player_x as int, old(self).player_y as int).len(),
            forall|i: int| 0 <= i < yields.len() ==> 0 <= #[trigger] yields@[i] <= 5,
            ({
                let cells = gather_cells(old(self).map, old(self).player_x as int, old(self).player_y as int);
                let n = cells.len() as int;
                &&& old(self).cargo.wood + kind_total(old(self).map, cells, yields@, Tile::Forest, n) <= i32::MAX
                &&& old(self).cargo.stone + kind_total(old(self).map, cells, yields@, Tile::Stone, n) <= i32::MAX
                &&& old(self).cargo.food + kind_total(old(self).map, cells, yields@, Tile::Berry, n) <= i32::MAX
            }),
        ensures
            ({
                let cells = gather_cells(old(self).map, old(self).player_x as int, old(self).player_y as int);
                let n = cells.len() as int;
                &&& gained.0 == kind_total(old(self).map, cells, yields@, Tile::Forest, n)
                &&& gained.1 == kind_total(old(self).map, cells, yields@, Tile::Stone, n)
                &&& gained.2 == kind_total(old(self).map, cells, yields@, Tile::Berry, n)
            }),
            final(self).cargo == (Resources {
                wood: (old(self).cargo.wood + gained.0) as i32,
                stone: (old(self).cargo.stone + gained.1) as i32,
                food: (old(self).cargo.food + gained.2) as i32,
            }),
            gathered_map(old(self).map, final(self).map, old(self).player_x as int, old(self).player_y as int),
            *final(self) == (ExpeditionState { map: final(self).map, cargo: final(self).cargo, ..*old(self) }),
    {
        let cells = self.gather_range_tiles();
        proof { self.lemma_gather_cells(); }
        let ghost m0 = self.map;
        let ghost px = self.player_x as int;
        let ghost py = self.player_y as int;
        let mut wood: i32 = 0;
        let mut stone: i32 = 0;
        let mut food: i32 = 0;
        let mut i: usize = 0;
        while i < cells.len()
            invariant
                m0.wf(),
                m0.in_bounds(px, py),
                px == self.player_x,
                py == self.player_y,
                cells@ == gather_cells(m0, px, py),
                yields.len() == cells.len(),
                forall|k: int| 0 <= k < yields.len() ==> 0 <= #[trigger] yields@[k] <= 5,
                cells.len() <= 5,
                forall|k: int|
                    0 <= k < cells.len() ==> m0.in_bounds(#[trigger] cells@[k].0 as int, cells@[k].1 as int)
                        && in_gather_area(px, py, cells@[k].0 as int, cells@[k].1 as int),
                forall|k: int, j: int| 0 <= k < j < cells.len() ==> #[trigger] cells@[k] != #[trigger] cells@[j],
                forall|a: int, b: int|
                    m0.in_bounds(a, b) ==> (#[trigger] cells@.contains((a as i32, b as i32))
                        == in_gather_area(px, py, a, b)),
                i <= cells.len(),
                self.map.wf(),
                self.map.width == m0.width,
                self.map.height == m0.height,
                forall|a: int, b: int|
                    m0.in_bounds(a, b) ==> #[trigger] self.map.tile(a, b) == if cells@.take(i as int).contains(
                        (a as i32, b as i32),
                    ) && gatherable(m0.tile(a, b)) {
                        Tile::Ground
                    } else {
                        m0.tile(a, b)
                    },
                wood == kind_total(m0, cells@, yields@, Tile::Forest, i as int),
                stone == kind_total(m0, cells@, yields@, Tile::Stone, i as int),
                food == kind_total(m0, cells@, yields@, Tile::Berry, i as int),
                0 <= wood <= 5 * i,
                0 <= stone <= 5 * i,
                0 <= food <= 5 * i,
                *self == (ExpeditionState { map: self.map, ..*old(self) }),
            decreases cells.len() - i,
        {
            let (x, y) = cells[i];
            proof {
                // Positions after `i` are untouched so far.
                let c = (x as int, y as int);
                if cells@.take(i as int).contains((x, y)) {
                    let k = choose|k: int| 0 <= k < i && #[trigger] cells@.take(i as int)[k] == (x, y);
                    assert(cells@[k] == cells@[i as int]);
                }
            }
            let t = self.map.tile_at(x, y);
            let ghost before = self.map;
            if t == Tile::Forest {
                wood = wood + yields[i];
                self.map.set_tile(x, y, Tile::Ground);
            } else if t == Tile::Stone {
                stone = stone + yields[i];
                self.map.set_tile(x, y, Tile::Ground);
            } else if t == Tile::Berry {
                food = food + yields[i];
                self.map.set_tile(x, y, Tile::Ground);
            }
            proof {
                let w = m0.width as int;
                let h = m0.height as int;
                assert(cells@.take(i + 1) =~= cells@.take(i as int).push((x, y)));
                assert forall|a: int, b: int| m0.in_bounds(a, b) implies #[trigger] self.map.tile(a, b)
                    == if cells@.take(i + 1).contains((a as i32, b as i32)) && gatherable(m0.tile(a, b)) {
                    Tile::Ground
                } else {
                    m0.tile(a, b)
                } by {
                    lemma_index_in_range(w, h, a, b);
                    lemma_index_in_range(w, h, x as int, y as int);
                    if a == x && b == y {
                        assert(cells@.take(i + 1)[i as int] == (x, y));
                    } else {
                        if m0.idx(a, b) == m0.idx(x as int, y as int) {
                            crate::map::lemma_index_injective(w, a, b, x as int, y as int);
                        }
                        assert(self.map.tile(a, b) == before.tile(a, b));
                        if cells@.take(i + 1).contains((a as i32, b as i32)) {
                            let k = choose|k: int| 0 <= k < i + 1 && #[trigger] cells@.take(i + 1)[k] == (a as i32, b as i32);
                            assert(k < i);
                            assert(cells@.take(i as int)[k] == (a as i32, b as i32));
                        }
                    }
                }
            }
            i = i + 1;
        }
        self.cargo.wood = self.cargo.wood + wood;
        self.cargo.stone = self.cargo.stone + stone;
        self.cargo.food = self.cargo.food + food;
        proof {
            assert(cells@.take(cells.len() as int) =~= cells@);
        }
        (wood, stone, food)
    }

    /// Plays a non-movement effect of a card and returns the message reporting it.
    pub(crate) fn apply_card(&mut self, card: &Card) -> (msg: String)
        requires
            old(self).wf(),
            card_fits(*old(self), *card),
        ensures
            card_effect(*old(self), *card, *final(self), msg@),
    {
        match card.kind {
            CardKind::Move => String::from_str("Moved."),
            CardKind::Gather => {
                let mut rng = thread_rng();
                let yields = self.roll_yields(&mut rng);
                let ghost before = *self;
                let ghost cells = gather_cells(before.map, before.player_x as int, before.player_y as int);
                proof {
                    let n = cells.len() as int;
                    self.lemma_gather_cells();
                    assert forall|i: int| 0 <= i < yields.len() implies 0 <= #[trigger] yields@[i] <= 5 by {
                        assert(yield_fits(before.map.tile(cells[i].0 as int, cells[i].1 as int), yields@[i] as int));
                    }
                    lemma_kind_total_bounds(before.map, cells, yields@, Tile::Forest, 1, 5, n);
                    lemma_kind_total_bounds(before.map, cells, yields@, Tile::Stone, 1, 2, n);
                    lemma_kind_total_bounds(before.map, cells, yields@, Tile::Berry, 1, 3, n);
                }
                let (wood, stone, food) = self.gather(&yields);
                let mut msg = String::from_str("Gathered W");
                append_int(&mut msg, wood as i64);
                msg.append(" S");
                append_int(&mut msg, stone as i64);
                msg.append(" F");
                append_int(&mut msg, food as i64);
                msg.append(".");
                msg
            },
            CardKind::Search => {
                self.cargo.food = self.cargo.food + 1;
                let mut msg = String::from_str("\u{6253}\u{51fa}");
                msg.append(card.name.as_str());
                msg.append("\u{ff0c}\u{627e}\u{5230}\u{98df}\u{7269}\u{3002}");
                msg
            },
            CardKind::Attack => {
                let hp = self.enemy_hp - card.value;
                self.enemy_hp = if hp > 0 { hp } else { 0 };
                let mut msg = String::from_str("\u{6253}\u{51fa}");
                msg.append(card.name.as_str());
                msg.append("\u{ff0c}\u{654c}\u{4eba}\u{751f}\u{547d}\u{964d}\u{81f3} ");
                append_int(&mut msg, self.enemy_hp as i64);
                msg.append("\u{3002}");
                msg
            },
            CardKind::Defend => {
                self.block = self.block + card.value;
                let mut msg = String::from_str("\u{6253}\u{51fa}");
                msg.append(card.name.as_str());
                msg.append("\u{ff0c}\u{683c}\u{6321}\u{63d0}\u{9ad8}\u{81f3} ");
                append_int(&mut msg, self.block as i64);
                msg.append("\u{3002}");
                msg
            },
            CardKind::Skill => {
                let mut msg = String::from_str("\u{6253}\u{51fa}");
                msg.append(card.name.as_str());
                msg.append("\u{3002}");
                msg
            },
        }
    }
}

/// An enemy at `(x, y)` may step by `d`: the target is inside the map, is ground, and is
/// not the player's position.
pub open spec fn open_step(e: ExpeditionState, x: int, y: int, d: (i32, i32)) -> bool {
    let nx = x + d.0;
    let ny = y + d.1;
    &&& e.map.in_bounds(nx, ny)
    &&& !(nx == e.player_x && ny == e.player_y)
    &&& e.map.tile(nx, ny) == Tile::Ground
}

/// The four unit steps.
pub open spec fn unit_steps() -> Seq<(i32, i32)> {
    seq![(1i32, 0i32), (-1i32, 0i32), (0i32, 1i32), (0i32, -1i32)]
}

/// The steps that bring an enemy at `(x, y)` closer to the player.
pub open spec fn toward_player(e: ExpeditionState, x: int, y: int, d: (i32, i32)) -> bool {
    (d == (1i32, 0i32) && e.player_x > x) || (d == (-1i32, 0i32) && e.player_x < x) || (d == (
    0i32,
    1i32,
    ) && e.player_y > y) || (d == (0i32, -1i32) && e.player_y < y)
}

/// Manhattan distance from `(x, y)` to the player.
pub open spec fn player_distance(e: ExpeditionState, x: int, y: int) -> int {
    (if e.player_x >= x { e.player_x - x } else { x - e.player_x }) + (if e.player_y >= y {
        e.player_y - y
    } else {
        y - e.player_y
    })
}

/// The position reached by the first step of `dirs` that is open, if any.
pub open spec fn first_open(e: ExpeditionState, x: int, y: int, dirs: Seq<(i32, i32)>) -> Option<(int, int)>
    decreases dirs.len(),
{
    if dirs.len() == 0 {
        None
    } else if open_step(e, x, y, dirs[0]) {
        Some((x + dirs[0].0, y + dirs[0].1))
    } else {
        first_open(e, x, y, dirs.drop_first())
    }
}

pub proof fn lemma_first_open(e: ExpeditionState, x: int, y: int, dirs: Seq<(i32, i32)>)
    ensures
        first_open(e, x, y, dirs) is None <==> forall|j: int| 0 <= j < dirs.len() ==> !open_step(e, x, y, #[trigger] dirs[j]),
        first_open(e, x, y, dirs) matches Some(p) ==> exists|j: int|
            0 <= j < dirs.len() && open_step(e, x, y, #[trigger] dirs[j]) && p == (x + dirs[j].0, y + dirs[j].1)
                && forall|i: int| 0 <= i < j ==> !open_step(e, x, y, #[trigger] dirs[i]),
    decreases dirs.len(),
{
    if dirs.len() > 0 {
        lemma_first_open(e, x, y, dirs.drop_first());
        if !open_step(e, x, y, dirs[0]) {
            if first_open(e, x, y, dirs) is None {
                assert forall|j: int| 0 <= j < dirs.len() implies !open_step(e, x, y, #[trigger] dirs[j]) by {
                    if j > 0 {
                        assert(dirs[j] == dirs.drop_first()[j - 1]);
                    }
                }
            } else {
                let t = dirs.drop_first();
                let j = choose|j: int|
                    0 <= j < t.len() && open_step(e, x, y, #[trigger] t[j]) && first_open(e, x, y, t) == Some((x + t[j].0, y + t[j].1))
                        && forall|i: int| 0 <= i < j ==> !open_step(e, x, y, #[trigger] t[i]);
                assert(dirs[j + 1] == t[j]);
                assert forall|i: int| 0 <= i < j + 1 implies !open_step(e, x, y, #[trigger] dirs[i]) by {
                    if i > 0 {
                        assert(dirs[i] == t[i - 1]);
                    }
                }
            }
        }
    }
}

impl ExpeditionState {
    /// The first step in `dirs` that an enemy at `(x, y)` can take, as the target position.
    fn first_open_step(&self, x: i32, y: i32, dirs: &Vec<(i32, i32)>) -> (r: Option<(i32, i32)>)
        requires
            self.wf(),
            self.map.in_bounds(x as int, y as int),
            forall|j: int| 0 <= j < dirs.len() ==> -1 <= (#[trigger] dirs@[j]).0 <= 1 && -1 <= dirs@[j].1 <= 1,
        ensures
            r matches Some(p) ==> first_open(*self, x as int, y as int, dirs@) == Some((p.0 as int, p.1 as int)),
            r is None ==> first_open(*self, x as int, y as int, dirs@) is None,
    {
        let mut i: usize = 0;
        proof {
            assert(dirs@.skip(0) =~= dirs@);
        }
        while i < dirs.len()
            invariant
                self.wf(),
                self.map.in_bounds(x as int, y as int),
                forall|j: int| 0 <= j < dirs.len() ==> -1 <= (#[trigger] dirs@[j]).0 <= 1 && -1 <= dirs@[j].1 <= 1,
                i <= dirs.len(),
                first_open(*self, x as int, y as int, dirs@) == first_open(*self, x as int, y as int, dirs@.skip(i as int)),
            decreases dirs.len() - i,
        {
            let (dx, dy) = dirs[i];
            let nx = x + dx;
            let ny = y + dy;
            proof {
                assert(dirs@.skip(i as int)[0] == dirs@[i as int]);
                assert(dirs@.skip(i as int).drop_first() =~= dirs@.skip(i + 1));
            }
            if nx >= 0 && ny >= 0 && nx < self.map.width && ny < self.map.height && !(nx == self.player_x && ny == self.player_y) {
                if self.map.tile_at(nx, ny) == Tile::Ground {
                    return Some((nx, ny));
                }
            }
            i = i + 1;
        }
        None
    }

    /// Where an enemy at `(x, y)` moves next, if anywhere. Within the alert range it tries
    /// the steps toward the player first (in random order), then the four unit steps;
    /// otherwise it tries the four unit steps in random order. A step must end on ground
    /// inside the map and not on the player.
    #[verifier::spinoff_prover]
    #[verifier::rlimit(60)]
    fn next_enemy_step(&self, x: i32, y: i32, rng: &mut ThreadRng) -> (r: Option<(i32, i32)>)
        requires
            self.wf(),
            self.map.in_bounds(x as int, y as int),
        ensures
            r is None <==> forall|j: int| 0 <= j < 4 ==> !open_step(*self, x as int, y as int, #[trigger] unit_steps()[j]),
            r matches Some(p) ==> exists|d: (i32, i32)|
                unit_steps().contains(d) && #[trigger] open_step(*self, x as int, y as int, d) && p == (
                (x + d.0) as i32,
                (y + d.1) as i32,
            ),
            (player_distance(*self, x as int, y as int) <= self.enemy_alert_range && exists|d: (i32, i32)|
                #[trigger] toward_player(*self, x as int, y as int, d) && open_step(*self, x as int, y as int, d))
                ==> (r matches Some(p) && exists|d: (i32, i32)|
                #[trigger] toward_player(*self, x as int, y as int, d) && p == ((x + d.0) as i32, (y + d.1) as i32)),
    {
        proof {
            crate::map::lemma_index_in_range(self.map.width as int, self.map.height as int, x as int, y as int);
            assert((self.map.width - 1) + (self.map.height - 1) <= self.map.width * self.map.height - 1) by (nonlinear_arith)
                requires self.map.width >= 1, self.map.height >= 1;
        }
        let distance = abs_i32(self.player_x - x) + abs_i32(self.player_y - y);
        let mut directions: Vec<(i32, i32)> = Vec::new();
        let ghost mut preferred_len: int = 0;
        let ghost mut pref: Seq<(i32, i32)> = Seq::empty();
        if distance <= self.enemy_alert_range {
            let mut preferred: Vec<(i32, i32)> = Vec::new();
            if self.player_x > x {
                preferred.push((1, 0));
            } else if self.player_x < x {
                preferred.push((-1, 0));
            }
            if self.player_y > y {
                preferred.push((0, 1));
            } else if self.player_y < y {
                preferred.push((0, -1));
            }
            let ghost unshuffled = preferred@;
            shuffle(&mut preferred, rng);
            proof {
                assert forall|j: int| 0 <= j < preferred.len() implies #[trigger] toward_player(*self, x as int, y as int, preferred@[j]) by {
                    assert(preferred@.to_multiset().count(preferred@[j]) > 0);
                    assert(unshuffled.contains(preferred@[j]));
                }
                assert forall|d: (i32, i32)| #[trigger] toward_player(*self, x as int, y as int, d) implies preferred@.contains(d) by {
                    let k: int = if d.1 == 0 { 0 } else if self.player_x != x { 1 } else { 0 };
                    assert(unshuffled[k] == d);
                    assert(unshuffled.contains(d));
                    assert(unshuffled.to_multiset().count(d) > 0);
                }
            }
            proof {
                preferred_len = preferred.len() as int;
                pref = preferred@;
            }
            directions = preferred;
            directions.push((1, 0));
            directions.push((-1, 0));
            directions.push((0, 1));
            directions.push((0, -1));
        } else {
            directions.push((1, 0));
            directions.push((-1, 0));
            directions.push((0, 1));
            directions.push((0, -1));
            let ghost unshuffled = directions@;
            shuffle(&mut directions, rng);
            proof {
                assert forall|j: int| 0 <= j < 4 implies directions@.contains(#[trigger] unit_steps()[j]) by {
                    assert(unshuffled[j] == unit_steps()[j]);
                    assert(unshuffled.to_multiset().count(unit_steps()[j]) > 0);
                }
                assert forall|j: int| 0 <= j < directions.len() implies unit_steps().contains(#[trigger] directions@[j]) by {
                    assert(directions@.to_multiset().count(directions@[j]) > 0);
                    assert(unshuffled.contains(directions@[j]));
                    let k = choose|k: int| 0 <= k < 4 && unshuffled[k] == directions@[j];
                    assert(unit_steps()[k] == unshuffled[k]);
                }
            }
        }
        proof {
            assert forall|j: int| 0 <= j < directions.len() implies -1 <= (#[trigger] directions@[j]).0 <= 1 && -1 <= directions@[j].1 <= 1 by {
                if preferred_len > 0 && j < preferred_len {
                    assert(toward_player(*self, x as int, y as int, directions@[j]));
                } else if distance <= self.enemy_alert_range {
                } else {
                    assert(unit_steps().contains(directions@[j]));
                }
            }
        }
        let r = self.first_open_step(x, y, &directions);
        proof {
            let ds = directions@;
            lemma_first_open(*self, x as int, y as int, ds);
            // Every unit step is among the candidates, and every candidate is a unit step.
            assert forall|j: int| 0 <= j < 4 implies ds.contains(#[trigger] unit_steps()[j]) by {
                if distance <= self.enemy_alert_range {
                    assert(ds[preferred_len + j] == unit_steps()[j]);
                }
            }
            assert forall|j: int| 0 <= j < ds.len() implies unit_steps().contains(#[trigger] ds[j]) by {
                if distance <= self.enemy_alert_range {
                    if j < preferred_len {
                        assert(toward_player(*self, x as int, y as int, ds[j]));
                        if ds[j] == (1i32, 0i32) { assert(unit_steps()[0] == ds[j]); }
                        else if ds[j] == (-1i32, 0i32) { assert(unit_steps()[1] == ds[j]); }
                        else if ds[j] == (0i32, 1i32) { assert(unit_steps()[2] == ds[j]); }
                        else { assert(unit_steps()[3] == ds[j]); }
                    } else {
                        assert(unit_steps()[j - preferred_len] == ds[j]);
                    }
                }
            }
            if r is None {
                assert forall|j: int| 0 <= j < 4 implies !open_step(*self, x as int, y as int, #[trigger] unit_steps()[j]) by {
                    let k = choose|k: int| 0 <= k < ds.len() && ds[k] == unit_steps()[j];
                    assert(!open_step(*self, x as int, y as int, ds[k]));
                }
            } else {
                let p = r.unwrap();
                let j = choose|j: int|
                    0 <= j < ds.len() && open_step(*self, x as int, y as int, #[trigger] ds[j]) && (p.0 as int, p.1 as int) == (x + ds[j].0, y + ds[j].1)
                        && forall|i: int| 0 <= i < j ==> !open_step(*self, x as int, y as int, #[trigger] ds[i]);
                assert(unit_steps().contains(ds[j]));
                assert(open_step(*self, x as int, y as int, ds[j]));
                if player_distance(*self, x as int, y as int) <= self.enemy_alert_range && exists|d: (i32, i32)|
                    #[trigger] toward_player(*self, x as int, y as int, d) && open_step(*self, x as int, y as int, d) {
                    let d = choose|d: (i32, i32)| #[trigger] toward_player(*self, x as int, y as int, d) && open_step(*self, x as int, y as int, d);
                    assert(ds.subrange(0, preferred_len) =~= pref);
                    assert(pref.contains(d));
                    let k0 = choose|k0: int| 0 <= k0 < pref.len() && pref[k0] == d;
                    assert(ds[k0] == d);
                    let k = k0;
                    assert(j <= k);
                    assert(toward_player(*self, x as int, y as int, ds[j]));
                }
            }
        }
        r
    }
}

/// Some unit step is open for an enemy at `(x, y)`.
pub open spec fn can_step(e: ExpeditionState, x: int, y: int) -> bool {
    exists|j: int| 0 <= j < 4 && open_step(e, x, y, #[trigger] unit_steps()[j])
}

/// `d` is a step an enemy at `(x, y)` may take: a unit step onto open ground, and one
/// toward the player while the player is within the alert range and such a step is open.
pub open spec fn allowed_step(e: ExpeditionState, x: int, y: int, d: (i32, i32)) -> bool {
    &&& unit_steps().contains(d)
    &&& open_step(e, x, y, d)
    &&& (player_distance(e, x, y) <= e.enemy_alert_range && exists|t: (i32, i32)|
        #[trigger] toward_player(e, x, y, t) && open_step(e, x, y, t)) ==> toward_player(e, x, y, d)
}

/// `f` is `e` once its enemy at `(x, y)` stepped by `d`: the tile left is ground, the tile
/// entered holds the enemy, and nothing else changes.
pub open spec fn stepped(e: ExpeditionState, x: int, y: int, d: (i32, i32), f: ExpeditionState) -> bool {
    &&& f == (ExpeditionState { map: f.map, ..e })
    &&& f.map.width == e.map.width
    &&& f.map.height == e.map.height
    &&& f.map.tiles@ == e.map.tiles@.update(e.map.idx(x, y), Tile::Ground).update(e.map.idx(x + d.0, y + d.1), Tile::Enemy)
}

/// A record of a walk of `n` steps from `(x, y)` in `e` to `(cx, cy)` in `f`: the states
/// and positions along the way, and the step taken at each, every one allowed.
pub open spec fn walk_trace(
    e: ExpeditionState,
    x: int,
    y: int,
    n: nat,
    f: ExpeditionState,
    cx: int,
    cy: int,
    states: Seq<ExpeditionState>,
    spots: Seq<(int, int)>,
    ds: Seq<(i32, i32)>,
) -> bool {
    &&& states.len() == n + 1
    &&& spots.len() == n + 1
    &&& ds.len() == n
    &&& states[0] == e
    &&& spots[0] == (x, y)
    &&& states[n as int] == f
    &&& spots[n as int] == (cx, cy)
    &&& forall|i: int|
        0 <= i < n ==> allowed_step(#[trigger] states[i], spots[i].0, spots[i].1, ds[i]) && stepped(
            states[i],
            spots[i].0,
            spots[i].1,
            ds[i],
            states[i + 1],
        ) && spots[i + 1] == (spots[i].0 + ds[i].0, spots[i].1 + ds[i].1)
}

/// The enemy that stood at `(x, y)` in `e` took `n` allowed steps, one after the other,
/// and stands at `(cx, cy)` in `f`.
pub open spec fn walked(e: ExpeditionState, x: int, y: int, n: nat, f: ExpeditionState, cx: int, cy: int) -> bool {
    exists|states: Seq<ExpeditionState>, spots: Seq<(int, int)>, ds: Seq<(i32, i32)>|
        #[trigger] walk_trace(e, x, y, n, f, cx, cy, states, spots, ds)
}

/// One enemy's turn from `e` to `f`: an enemy still standing at `(x, y)` takes allowed
/// steps until it has taken `s` of them or none is open; with no enemy there nothing
/// happens.
pub open spec fn enemy_turn(e: ExpeditionState, x: int, y: int, s: nat, f: ExpeditionState) -> bool {
    &&& !(e.map.in_bounds(x, y) && e.map.tile(x, y) == Tile::Enemy) ==> f == e
    &&& e.map.in_bounds(x, y) && e.map.tile(x, y) == Tile::Enemy ==> exists|n: nat, cx: int, cy: int|
        n <= s && #[trigger] walked(e, x, y, n, f, cx, cy) && (n < s ==> !can_step(f, cx, cy))
}

/// A record of the turns of the first `k` enemies of `list` from `e` to `f`: the state
/// before each turn and after the last.
pub open spec fn turn_trace(e: ExpeditionState, list: Seq<(i32, i32)>, k: nat, s: nat, f: ExpeditionState, states: Seq<ExpeditionState>) -> bool {
    &&& states.len() == k + 1
    &&& states[0] == e
    &&& states[k as int] == f
    &&& forall|i: int| 0 <= i < k ==> enemy_turn(#[trigger] states[i], list[i].0 as int, list[i].1 as int, s, states[i + 1])
}

/// The turns of the first `k` enemies listed in `list`, one after the other, lead from `e`
/// to `f`.
pub open spec fn turns(e: ExpeditionState, list: Seq<(i32, i32)>, k: nat, s: nat, f: ExpeditionState) -> bool {
    exists|states: Seq<ExpeditionState>| #[trigger] turn_trace(e, list, k, s, f, states)
}

/// A walk of no steps.
pub proof fn lemma_walk_start(e: ExpeditionState, x: int, y: int)
    ensures
        walked(e, x, y, 0, e, x, y),
{
    assert(walk_trace(e, x, y, 0, e, x, y, seq![e], seq![(x, y)], Seq::empty()));
}

/// One more allowed step extends a walk.
pub proof fn lemma_walk_step(
    e: ExpeditionState,
    x: int,
    y: int,
    n: nat,
    m: ExpeditionState,
    px: int,
    py: int,
    d: (i32, i32),
    f: ExpeditionState,
)
    requires
        walked(e, x, y, n, m, px, py),
        allowed_step(m, px, py, d),
        stepped(m, px, py, d, f),
    ensures
        walked(e, x, y, n + 1, f, px + d.0, py + d.1),
{
    let (states, spots, ds) = choose|states: Seq<ExpeditionState>, spots: Seq<(int, int)>, ds: Seq<(i32, i32)>|
        #[trigger] walk_trace(e, x, y, n, m, px, py, states, spots, ds);
    let states2 = states.push(f);
    let spots2 = spots.push((px + d.0, py + d.1));
    let ds2 = ds.push(d);
    assert forall|i: int| 0 <= i < n + 1 implies allowed_step(#[trigger] states2[i], spots2[i].0, spots2[i].1, ds2[i]) && stepped(
        states2[i],
        spots2[i].0,
        spots2[i].1,
        ds2[i],
        states2[i + 1],
    ) && spots2[i + 1] == (spots2[i].0 + ds2[i].0, spots2[i].1 + ds2[i].1) by {
        if i < n {
            assert(states2[i] == states[i] && spots2[i] == spots[i] && ds2[i] == ds[i]);
            assert(states2[i + 1] == states[i + 1] && spots2[i + 1] == spots[i + 1]);
        }
    }
    assert(walk_trace(e, x, y, n + 1, f, px + d.0, py + d.1, states2, spots2, ds2));
}

/// No turns leave the expedition as it is.
pub proof fn lemma_turns_start(e: ExpeditionState, list: Seq<(i32, i32)>, s: nat)
    ensures
        turns(e, list, 0, s, e),
{
    assert(turn_trace(e, list, 0, s, e, seq![e]));
}

/// One more enemy's turn extends the turns.
pub proof fn lemma_turn_next(e: ExpeditionState, list: Seq<(i32, i32)>, k: nat, s: nat, m: ExpeditionState, f: ExpeditionState)
    requires
        k < list.len(),
        turns(e, list, k, s, m),
        enemy_turn(m, list[k as int].0 as int, list[k as int].1 as int, s, f),
    ensures
        turns(e, list, k + 1, s, f),
{
    let states = choose|states: Seq<ExpeditionState>| #[trigger] turn_trace(e, list, k, s, m, states);
    let states2 = states.push(f);
    assert forall|i: int| 0 <= i < k + 1 implies enemy_turn(#[trigger] states2[i], list[i].0 as int, list[i].1 as int, s, states2[i + 1]) by {
        if i < k {
            assert(states2[i] == states[i] && states2[i + 1] == states[i + 1]);
        }
    }
    assert(turn_trace(e, list, k + 1, s, f, states2));
}

/// How many steps each enemy takes at most in a turn: the move speed, none when it is
/// not positive.
pub open spec fn move_steps(e: ExpeditionState) -> nat {
    if e.enemy_move_speed > 0 { e.enemy_move_speed as nat } else { 0 }
}

/// `list` names every enemy of map `m` once, in row order.
pub open spec fn enemies_in_order(m: ExplorationMap, list: Seq<(i32, i32)>) -> bool {
    &&& forall|k: int| 0 <= k < list.len() ==> m.in_bounds((#[trigger] list[k]).0 as int, list[k].1 as int)
        && m.tile(list[k].0 as int, list[k].1 as int) == Tile::Enemy
    &&& forall|k: int, l: int| 0 <= k < l < list.len() ==> (#[trigger] list[k]).1 < (#[trigger] list[l]).1 || (list[k].1 == list[l].1
        && list[k].0 < list[l].0)
    &&& forall|x: int, y: int| m.in_bounds(x, y) && #[trigger] m.tile(x, y) == Tile::Enemy ==> list.contains((x as i32, y as i32))
}

/// The enemy moves keep every tile that is neither ground nor an enemy, keep the number of
/// each kind of tile, and never put an enemy on the player.
pub open spec fn enemies_moved(before: ExplorationMap, after: ExplorationMap, px: int, py: int) -> bool {
    &&& after.wf()
    &&& after.width == before.width
    &&& after.height == before.height
    &&& after.tiles@.to_multiset() == before.tiles@.to_multiset()
    &&& forall|i: int|
        0 <= i < before.tiles.len() && before.tiles@[i] != Tile::Ground && before.tiles@[i] != Tile::Enemy
            ==> #[trigger] after.tiles@[i] == before.tiles@[i]
    &&& (after.tile(px, py) == Tile::Enemy ==> before.tile(px, py) == Tile::Enemy)
}

impl ExpeditionState {
    /// Every enemy, in row order, takes up to `enemy_move_speed` steps (see
    /// `next_enemy_step`); a step turns its tile into ground and the target into an enemy.
    pub(crate) fn move_enemies(&mut self)
        requires
            old(self).wf(),
        ensures
            enemies_moved(old(self).map, final(self).map, old(self).player_x as int, old(self).player_y as int),
            *final(self) == (ExpeditionState { map: final(self).map, ..*old(self) }),
            exists|list: Seq<(i32, i32)>| enemies_in_order(old(self).map, list) && #[trigger] turns(
                *old(self),
                list,
                list.len(),
                move_steps(*old(self)),
                *final(self),
            ),
    {
        let ghost m0 = self.map;
        let ghost p = self.player();
        let mut enemies: Vec<(i32, i32)> = Vec::new();
        let mut y: i32 = 0;
        while y < self.map.height
            invariant
                self.wf(),
                *self == *old(self),
                0 <= y <= self.map.height,
                forall|k: int| 0 <= k < enemies.len() ==> self.map.in_bounds(#[trigger] enemies@[k].0 as int, enemies@[k].1 as int),
                forall|k: int| 0 <= k < enemies.len() ==> self.map.tile((#[trigger] enemies@[k]).0 as int, enemies@[k].1 as int) == Tile::Enemy
                    && enemies@[k].1 < y,
                forall|k: int, l: int| 0 <= k < l < enemies.len() ==> (#[trigger] enemies@[k]).1 < (#[trigger] enemies@[l]).1 || (
                enemies@[k].1 == enemies@[l].1 && enemies@[k].0 < enemies@[l].0),
                forall|a: int, b: int|
                    self.map.in_bounds(a, b) && #[trigger] self.map.tile(a, b) == Tile::Enemy && b < y ==> enemies@.contains(
                        (a as i32, b as i32),
                    ),
            decreases self.map.height - y,
        {
            let mut x: i32 = 0;
            while x < self.map.width
                invariant
                    self.wf(),
                    *self == *old(self),
                    0 <= y < self.map.height,
                    0 <= x <= self.map.width,
                    forall|k: int| 0 <= k < enemies.len() ==> self.map.in_bounds(#[trigger] enemies@[k].0 as int, enemies@[k].1 as int),
                    forall|k: int| 0 <= k < enemies.len() ==> self.map.tile((#[trigger] enemies@[k]).0 as int, enemies@[k].1 as int) == Tile::Enemy
                        && (enemies@[k].1 < y || (enemies@[k].1 == y && enemies@[k].0 < x)),
                    forall|k: int, l: int| 0 <= k < l < enemies.len() ==> (#[trigger] enemies@[k]).1 < (#[trigger] enemies@[l]).1 || (
                    enemies@[k].1 == enemies@[l].1 && enemies@[k].0 < enemies@[l].0),
                    forall|a: int, b: int|
                        self.map.in_bounds(a, b) && #[trigger] self.map.tile(a, b) == Tile::Enemy && (b < y || (b == y && a < x))
                            ==> enemies@.contains((a as i32, b as i32)),
                decreases self.map.width - x,
            {
                let ghost before = enemies@;
                if self.map.tile_at(x, y) == Tile::Enemy {
                    enemies.push((x, y));
                    proof {
                        assert(enemies@[before.len() as int] == (x, y));
                        assert forall|a: int, b: int|
                            self.map.in_bounds(a, b) && #[trigger] self.map.tile(a, b) == Tile::Enemy && (b < y || (b == y && a < x + 1))
                                implies enemies@.contains((a as i32, b as i32)) by {
                            if b == y && a == x {
                                assert(enemies@[before.len() as int] == (a as i32, b as i32));
                            } else {
                                assert(before.contains((a as i32, b as i32)));
                                let w = choose|w: int| 0 <= w < before.len() && before[w] == (a as i32, b as i32);
                                assert(enemies@[w] == before[w]);
                            }
                        }
                    }
                }
                x = x + 1;
            }
            y = y + 1;
        }
        let ghost list = enemies@;
        proof {
            assert(enemies_in_order(old(self).map, list));
        }
        let mut rng = thread_rng();
        let steps: i32 = if self.enemy_move_speed > 0 { self.enemy_move_speed } else { 0 };
        let ghost e0 = *old(self);
        let ghost sn: nat = move_steps(e0);
        proof {
            lemma_turns_start(e0, list, sn);
        }
        let mut k: usize = 0;
        while k < enemies.len()
            invariant
                enemies@ == list,
                k <= enemies.len(),
                steps as int == sn,
                sn == move_steps(e0),
                e0 == *old(self),
                turns(e0, list, k as nat, sn, *self),
                self.wf(),
                *self == (ExpeditionState { map: self.map, ..*old(self) }),
                p == self.player(),
                enemies_moved(m0, self.map, p.0, p.1),
                m0.wf(),
                forall|j: int| 0 <= j < enemies.len() ==> self.map.in_bounds(#[trigger] enemies@[j].0 as int, enemies@[j].1 as int),
            decreases enemies.len() - k,
        {
            let (mut x, mut y) = enemies[k];
            let ghost start = *self;
            let ghost (x0, y0) = (x as int, y as int);
            k = k + 1;
            if self.map.tile_at(x, y) != Tile::Enemy {
                proof {
                    assert(list[k - 1] == (x, y));
                    lemma_turn_next(e0, list, (k - 1) as nat, sn, start, *self);
                }
                continue;
            }
            let mut s: i32 = 0;
            let ghost mut stuck = false;
            proof {
                lemma_walk_start(start, x0, y0);
            }
            while s < steps
                invariant
                    0 <= s <= steps,
                    steps as int == sn,
                    walked(start, x0, y0, s as nat, *self, x as int, y as int),
                    stuck ==> !can_step(*self, x as int, y as int),
                    self.wf(),
                    *self == (ExpeditionState { map: self.map, ..*old(self) }),
                    p == self.player(),
                    enemies_moved(m0, self.map, p.0, p.1),
                    m0.wf(),
                    self.map.in_bounds(x as int, y as int),
                    self.map.tile(x as int, y as int) == Tile::Enemy,
                    0 <= s,
                ensures
                    0 <= s <= steps,
                    walked(start, x0, y0, s as nat, *self, x as int, y as int),
                    s < steps ==> !can_step(*self, x as int, y as int),
                    self.wf(),
                    *self == (ExpeditionState { map: self.map, ..*old(self) }),
                    p == self.player(),
                    enemies_moved(m0, self.map, p.0, p.1),
                decreases steps - s,
            {
                let ghost prev = *self;
                let Some((nx, ny)) = self.next_enemy_step(x, y, &mut rng) else {
                    proof {
                        if can_step(*self, x as int, y as int) {
                            let j = choose|j: int| 0 <= j < 4 && open_step(*self, x as int, y as int, #[trigger] unit_steps()[j]);
                            assert(!open_step(*self, x as int, y as int, unit_steps()[j]));
                        }
                        stuck = true;
                    }
                    break;
                };
                let ghost d: (i32, i32) = if player_distance(prev, x as int, y as int) <= prev.enemy_alert_range && exists|t: (i32, i32)|
                    #[trigger] toward_player(prev, x as int, y as int, t) && open_step(prev, x as int, y as int, t) {
                    choose|t: (i32, i32)| #[trigger] toward_player(prev, x as int, y as int, t) && (nx, ny) == ((x + t.0) as i32, (y + t.1) as i32)
                } else {
                    choose|t: (i32, i32)|
                        unit_steps().contains(t) && #[trigger] open_step(prev, x as int, y as int, t) && (nx, ny) == (
                            (x + t.0) as i32,
                            (y + t.1) as i32,
                        )
                };
                let ghost t0 = self.map.tiles@;
                let ghost i0 = self.map.idx(x as int, y as int);
                proof {
                    let d = choose|d: (i32, i32)|
                        unit_steps().contains(d) && #[trigger] open_step(*self, x as int, y as int, d) && (nx, ny) == (
                            (x + d.0) as i32,
                            (y + d.1) as i32,
                        );
                    lemma_index_in_range(self.map.width as int, self.map.height as int, x as int, y as int);
                    lemma_index_in_range(self.map.width as int, self.map.height as int, nx as int, ny as int);
                }
                let ghost j0 = self.map.idx(nx as int, ny as int);
                self.map.set_tile(x, y, Tile::Ground);
                self.map.set_tile(nx, ny, Tile::Enemy);
                proof {
                    let w = self.map.width as int;
                    let h = self.map.height as int;
                    assert(t0[i0] == Tile::Enemy);
                    assert(t0[j0] == Tile::Ground);
                    assert(i0 != j0);
                    let t1 = t0.update(i0, Tile::Ground);
                    assert(t1[j0] == Tile::Ground);
                    assert(self.map.tiles@.to_multiset() =~= t0.to_multiset());
                    lemma_index_in_range(w, h, p.0, p.1);
                    if self.map.tile(p.0, p.1) == Tile::Enemy {
                        if self.map.idx(p.0, p.1) == j0 {
                            crate::map::lemma_index_injective(w, p.0, p.1, nx as int, ny as int);
                        }
                    }
                }
                proof {
                    let o = choose|t: (i32, i32)|
                        unit_steps().contains(t) && #[trigger] open_step(prev, x as int, y as int, t) && (nx, ny) == (
                            (x + t.0) as i32,
                            (y + t.1) as i32,
                        );
                    assert(open_step(prev, x as int, y as int, d)) by {
                        assert(nx as int == x + o.0 && ny as int == y + o.1);
                    }
                    if toward_player(prev, x as int, y as int, d) {
                        if d == (1i32, 0i32) { assert(unit_steps()[0] == d); }
                        else if d == (-1i32, 0i32) { assert(unit_steps()[1] == d); }
                        else if d == (0i32, 1i32) { assert(unit_steps()[2] == d); }
                        else { assert(unit_steps()[3] == d); }
                    }
                    assert(allowed_step(prev, x as int, y as int, d));
                    assert(stepped(prev, x as int, y as int, d, *self));
                    assert(nx as int == x + d.0 && ny as int == y + d.1);
                    lemma_walk_step(start, x0, y0, s as nat, prev, x as int, y as int, d, *self);
                }
                x = nx;
                y = ny;
                s = s + 1;
            }
            proof {
                assert(walked(start, x0, y0, s as nat, *self, x as int, y as int));
                assert(list[k - 1] == (x0 as i32, y0 as i32));
                assert(enemy_turn(start, x0, y0, sn, *self));
                lemma_turn_next(e0, list, (k - 1) as nat, sn, start, *self);
            }
        }
        proof {
            assert(enemies_in_order(e0.map, list) && turns(e0, list, list.len(), sn, *self));
        }
    }
}

} // verus!
