use vstd::prelude::*;

verus! {

#[derive(Debug, Clone, Copy, PartialEq, Eq, Structural)]
pub enum CardKind {
    Move,
    Gather,
    Search,
    Attack,
    Defend,
    Skill,
}

/// An action card carried on expeditions.
#[derive(Debug, Clone)]
pub struct Card {
    pub id: String,
    pub name: String,
    pub kind: CardKind,
    pub cost: u8,
    pub food_cost: u8,
    pub value: i32,
}

/// The card `Card::new` builds from these values: no energy cost.
pub open spec fn made_card(
    c: Card,
    id: Seq<char>,
    name: Seq<char>,
    kind: CardKind,
    food_cost: u8,
    value: i32,
) -> bool {
    &&& c.id@ == id
    &&& c.name@ == name
    &&& c.kind == kind
    &&& c.cost == 0
    &&& c.food_cost == food_cost
    &&& c.value == value
}

/// The movement card: free, moves up to 3 tiles.
pub open spec fn is_move_step(c: Card) -> bool {
    made_card(c, "move_step"@, "\u{79fb}\u{52a8}"@, CardKind::Move, 0, 3)
}

/// The gathering card: costs 1 food, value 2.
pub open spec fn is_gather_scrap(c: Card) -> bool {
    made_card(c, "gather_scrap"@, "\u{91c7}\u{96c6}"@, CardKind::Gather, 1, 2)
}

impl Card {
    /// The cards that can be chosen when preparing an expedition, in display order.
    pub fn available_cards() -> (v: Vec<Card>)
        ensures
            v.len() == 2,
            is_move_step(v[0]),
            is_gather_scrap(v[1]),
    {
        let mut v = Vec::new();
        v.push(Card::move_step());
        v.push(Card::gather_scrap());
        v
    }

    pub fn move_step() -> (c: Card)
        ensures
            is_move_step(c),
    {
        Card::new("move_step", "\u{79fb}\u{52a8}", CardKind::Move, 0, 3)
    }

    pub fn gather_scrap() -> (c: Card)
        ensures
            is_gather_scrap(c),
    {
        Card::new("gather_scrap", "\u{91c7}\u{96c6}", CardKind::Gather, 1, 2)
    }

    fn new(id: &str, name: &str, kind: CardKind, food_cost: u8, value: i32) -> (c: Card)
        ensures
            made_card(c, id@, name@, kind, food_cost, value),
    {
        Card {
            id: String::from_str(id),
            name: String::from_str(name),
            kind,
            cost: 0,
            food_cost,
            value,
        }
    }

    /// A field-by-field copy of the card.
    pub fn duplicate(&self) -> (c: Card)
        ensures
            c == *self,
    {
        Card {
            id: self.id.clone(),
            name: self.name.clone(),
            kind: self.kind,
            cost: self.cost,
            food_cost: self.food_cost,
            value: self.value,
        }
    }
}

/// A copy of a list of cards, in the same order.
pub fn duplicate_cards(cards: &Vec<Card>) -> (v: Vec<Card>)
    ensures
        v@ == cards@,
{
    let mut v: Vec<Card> = Vec::new();
    let mut i: usize = 0;
    while i < cards.len()
        invariant
            i <= cards.len(),
            v@ == cards@.subrange(0, i as int),
        decreases cards.len() - i,
    {
        v.push(cards[i].duplicate());
        i = i + 1;
    }
    v
}

/// Food needed to carry these cards.
pub open spec fn food_cost_of(cards: Seq<Card>) -> int
    decreases cards.len(),
{
    if cards.len() == 0 {
        0
    } else {
        food_cost_of(cards.drop_last()) + cards.last().food_cost
    }
}

pub proof fn lemma_food_cost_prefix(cards: Seq<Card>, i: int)
    requires
        0 <= i <= cards.len(),
    ensures
        0 <= food_cost_of(cards.subrange(0, i)) <= food_cost_of(cards),
    decreases cards.len() - i,
{
    if i < cards.len() {
        lemma_food_cost_prefix(cards, i + 1);
        assert(cards.subrange(0, i + 1).drop_last() =~= cards.subrange(0, i));
        lemma_food_cost_nonneg(cards.subrange(0, i));
    } else {
        assert(cards.subrange(0, i) =~= cards);
        lemma_food_cost_nonneg(cards);
    }
}

/// Each card costs at most 255 food.
pub proof fn lemma_food_cost_at_most(cards: Seq<Card>)
    ensures
        food_cost_of(cards) <= 255 * cards.len(),
    decreases cards.len(),
{
    if cards.len() > 0 {
        lemma_food_cost_at_most(cards.drop_last());
    }
}

pub proof fn lemma_food_cost_nonneg(cards: Seq<Card>)
    ensures
        0 <= food_cost_of(cards),
    decreases cards.len(),
{
    if cards.len() > 0 {
        lemma_food_cost_nonneg(cards.drop_last());
    }
}

/// Total food cost of a list of cards.
pub fn total_food_cost(cards: &Vec<Card>) -> (total: i32)
    requires
        food_cost_of(cards@) <= i32::MAX,
    ensures
        total == food_cost_of(cards@),
{
    let mut total: i32 = 0;
    let mut i: usize = 0;
    while i < cards.len()
        invariant
            i <= cards.len(),
            food_cost_of(cards@) <= i32::MAX,
            total == food_cost_of(cards@.subrange(0, i as int)),
        decreases cards.len() - i,
    {
        proof {
            lemma_food_cost_prefix(cards@, i + 1);
            assert(cards@.subrange(0, i + 1).drop_last() =~= cards@.subrange(0, i as int));
        }
        total = total + cards[i].food_cost as i32;
        i = i + 1;
    }
    proof {
        assert(cards@.subrange(0, cards.len() as int) =~= cards@);
    }
    total
}

} // verus!
