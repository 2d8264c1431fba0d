use vstd::prelude::*;

verus! {

/// Raw materials held by the base or carried on an expedition.
#[derive(Debug, Clone, Copy, PartialEq, Eq, Structural)]
pub struct Resources {
    pub wood: i32,
    pub stone: i32,
    pub food: i32,
}

/// Amount of the material with the given storage index (0 wood, 1 stone, 2 food).
pub open spec fn material(r: Resources, index: int) -> int {
    if index == 0 {
        r.wood as int
    } else if index == 1 {
        r.stone as int
    } else {
        r.food as int
    }
}

/// Sum of all materials.
pub open spec fn total_of(r: Resources) -> int {
    r.wood + r.stone + r.food
}

/// `r` with the material at `index` replaced by `value`.
pub open spec fn with_material(r: Resources, index: int, value: i32) -> Resources {
    if index == 0 {
        Resources { wood: value, ..r }
    } else if index == 1 {
        Resources { stone: value, ..r }
    } else {
        Resources { food: value, ..r }
    }
}

pub open spec fn affords(have: Resources, cost: Resources) -> bool {
    have.wood >= cost.wood && have.stone >= cost.stone && have.food >= cost.food
}

pub open spec fn fits_i32(v: int) -> bool {
    i32::MIN <= v <= i32::MAX
}

/// Component-wise difference, as integers.
pub open spec fn minus(a: Resources, b: Resources) -> (int, int, int) {
    (a.wood - b.wood, a.stone - b.stone, a.food - b.food)
}

/// Component-wise sum, as integers.
pub open spec fn plus(a: Resources, b: Resources) -> (int, int, int) {
    (a.wood + b.wood, a.stone + b.stone, a.food + b.food)
}

pub open spec fn can_subtract(a: Resources, b: Resources) -> bool {
    fits_i32(a.wood - b.wood) && fits_i32(a.stone - b.stone) && fits_i32(a.food - b.food)
}

pub open spec fn can_add(a: Resources, b: Resources) -> bool {
    fits_i32(a.wood + b.wood) && fits_i32(a.stone + b.stone) && fits_i32(a.food + b.food)
}

/// How much of `amount` a discard actually removes from a stock of `held`.
pub open spec fn discard_amount(held: int, amount: int) -> int {
    if amount <= 0 || held <= 0 {
        0
    } else if amount <= held {
        amount
    } else {
        held
    }
}

impl Resources {
    /// The stock a new campaign starts with.
    pub fn starter() -> (r: Resources)
        ensures
            r == (Resources { wood: 8, stone: 4, food: 10 }),
    {
        Resources { wood: 8, stone: 4, food: 10 }
    }

    /// Whether every material covers the matching cost.
    pub fn can_afford(&self, cost: &Resources) -> (b: bool)
        ensures
            b == affords(*self, *cost),
    {
        self.wood >= cost.wood && self.stone >= cost.stone && self.food >= cost.food
    }

    /// Subtracts a cost from every material.
    pub fn spend(&mut self, cost: &Resources)
        requires
            can_subtract(*old(self), *cost),
        ensures
            final(self).wood == old(self).wood - cost.wood,
            final(self).stone == old(self).stone - cost.stone,
            final(self).food == old(self).food - cost.food,
    {
        self.wood = self.wood - cost.wood;
        self.stone = self.stone - cost.stone;
        self.food = self.food - cost.food;
    }

    /// Adds a gain to every material.
    pub fn add(&mut self, gain: &Resources)
        requires
            can_add(*old(self), *gain),
        ensures
            final(self).wood == old(self).wood + gain.wood,
            final(self).stone == old(self).stone + gain.stone,
            final(self).food == old(self).food + gain.food,
    {
        self.wood = self.wood + gain.wood;
        self.stone = self.stone + gain.stone;
        self.food = self.food + gain.food;
    }

    /// Amount of the material with the given storage index (0 wood, 1 stone, 2 food).
    pub fn amount(&self, index: usize) -> (a: i32)
        requires
            index < 3,
        ensures
            a == material(*self, index as int),
    {
        if index == 0 {
            self.wood
        } else if index == 1 {
            self.stone
        } else {
            self.food
        }
    }

    /// Total amount of stored material.
    pub fn total(&self) -> (t: i32)
        requires
            fits_i32(total_of(*self)),
        ensures
            t == total_of(*self),
    {
        (self.wood as i64 + self.stone as i64 + self.food as i64) as i32
    }

    /// Removes up to `amount` of one material, never below zero; returns what was removed.
    pub fn discard(&mut self, index: usize, amount: i32) -> (removed: i32)
        requires
            index < 3,
        ensures
            removed == discard_amount(material(*old(self), index as int), amount as int),
            *final(self) == with_material(
                *old(self),
                index as int,
                (material(*old(self), index as int) - removed) as i32,
            ),
    {
        let held = self.amount(index);
        let removed = if amount <= 0 || held <= 0 {
            0
        } else if amount <= held {
            amount
        } else {
            held
        };
        let left = held - removed;
        if index == 0 {
            self.wood = left;
        } else if index == 1 {
            self.stone = left;
        } else {
            self.food = left;
        }
        removed
    }
}

/// A member of the base's roster.
#[derive(Debug, Clone)]
pub struct Character {
    pub name: String,
    pub hp: i32,
    pub max_hp: i32,
    pub attack: i32,
    pub defense: i32,
    pub speed: i32,
    pub alive: bool,
}

pub open spec fn fresh_character(c: Character, name: Seq<char>, hp: i32, attack: i32, defense: i32) -> bool {
    &&& c.name@ == name
    &&& c.hp == hp
    &&& c.max_hp == hp
    &&& c.attack == attack
    &&& c.defense == defense
    &&& c.speed == 0
    &&& c.alive
}

impl Character {
    /// The two characters a new campaign starts with.
    pub fn starter_roster() -> (v: Vec<Character>)
        ensures
            v.len() == 2,
            fresh_character(v[0], "Lian"@, 24, 3, 1),
            fresh_character(v[1], "Moro"@, 20, 4, 0),
    {
        let a = Character::new("Lian", 24, 3, 1);
        let b = Character::new("Moro", 20, 4, 0);
        let mut v = Vec::new();
        v.push(a);
        v.push(b);
        v
    }

    fn new(name: &str, hp: i32, attack: i32, defense: i32) -> (c: Character)
        ensures
            fresh_character(c, name@, hp, attack, defense),
    {
        Character {
            name: String::from_str(name),
            hp,
            max_hp: hp,
            attack,
            defense,
            speed: 0,
            alive: true,
        }
    }
}

/// A building standing on a base tile.
#[derive(Debug, Clone, Copy, PartialEq, Eq, Structural)]
pub struct Building {
    pub kind: BuildingKind,
    pub x: i32,
    pub y: i32,
    pub level: u8,
}

#[derive(Debug, Clone, Copy, PartialEq, Eq, Structural)]
pub enum BuildingKind {
    Campfire,
    Storehouse,
    Workbench,
    ResearchTable,
    TrainingDummy,
}

/// A research node.
#[derive(Debug, Clone)]
pub struct Technology {
    pub id: String,
    pub name: String,
    pub unlocked: bool,
}

impl Technology {
    /// The research tree of a new campaign: a single locked base expansion.
    pub fn starter_tree() -> (v: Vec<Technology>)
        ensures
            v.len() == 1,
            v[0].id@ == "base_expansion_1"@,
            v[0].name@ == "Base Expansion I"@,
            !v[0].unlocked,
    {
        let mut v = Vec::new();
        v.push(
            Technology {
                id: String::from_str("base_expansion_1"),
                name: String::from_str("Base Expansion I"),
                unlocked: false,
            },
        );
        v
    }
}

} // verus!
