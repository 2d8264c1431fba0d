use vstd::prelude::*;

use crate::card::{duplicate_cards, food_cost_of, total_food_cost, Card, CardKind};
use crate::data::{
    affords, fits_i32, material, total_of, with_material, Building, BuildingKind, Character,
    Resources, Technology, discard_amount,
};
use crate::expedition::{
    card_effect, card_fits, clamp_axis, clamp_camera_axis, enemies_in_order, enemies_moved, move_steps, origin_axis, turns,
    starts_expedition, ExpeditionState,
};
use crate::map::{ExplorationMap, Tile};
use crate::text::{append_count, append_int, decimal};

verus! {

broadcast use {
    vstd::seq_lib::group_to_multiset_ensures,
    vstd::seq_lib::lemma_multiset_commutative,
    vstd::multiset::group_multiset_axioms,
};

#[derive(Debug, Clone, Copy, PartialEq, Eq, Structural)]
pub enum Screen {
    MainMenu,
    TransitionToBase,
    TransitionToExpedition,
    Base,
    Expedition,
    GameOver,
}

/// At most this many cards can be carried on an expedition.
pub const MAX_PREP_CARDS: usize = 5;

/// Why the prepared expedition cannot depart.
#[derive(Debug, Clone, Copy, PartialEq, Eq, Structural)]
pub enum DepartBlockReason {
    EmptyDeck,
    Food,
    Capacity,
}

pub open spec fn block_text(reason: DepartBlockReason) -> Seq<char> {
    match reason {
        DepartBlockReason::EmptyDeck => "Choose at least one card before departing."@,
        DepartBlockReason::Food => "Not enough food to depart."@,
        DepartBlockReason::Capacity => "Storage would remain over capacity after preparation."@,
    }
}

impl DepartBlockReason {
    /// The sentence shown when departure is refused for this reason.
    pub fn message(self) -> (s: &'static str)
        ensures
            s@ == block_text(self),
    {
        match self {
            DepartBlockReason::EmptyDeck => "Choose at least one card before departing.",
            DepartBlockReason::Food => "Not enough food to depart.",
            DepartBlockReason::Capacity => "Storage would remain over capacity after preparation.",
        }
    }
}

/// The base: a square of tiles with buildings on it.
#[derive(Debug, Clone)]
pub struct BaseState {
    pub size: i32,
    pub buildings: Vec<Building>,
    pub storage_capacity: i32,
    pub zoom_level: usize,
    /// Scroll position of the base view, in whole pixels.
    pub camera_x: i32,
    pub camera_y: i32,
}

/// The whole campaign: screens, base, expedition, stock and the state of every dialog.
#[derive(Debug, Clone)]
pub struct Game {
    pub screen: Screen,
    pub base: BaseState,
    pub expedition: Option<ExpeditionState>,
    pub resources: Resources,
    pub characters: Vec<Character>,
    pub technologies: Vec<Technology>,
    pub message: String,
    pub show_storage_dialog: bool,
    pub show_build_menu: bool,
    pub show_expedition_prep: bool,
    pub show_expedition_bag: bool,
    pub show_character_dialog: bool,
    pub show_crafting_dialog: bool,
    pub build_menu_category: usize,
    pub confirm_quit: bool,
    pub storage_discard_inputs: [i32; 3],
    pub discovered_resources: [bool; 3],
    pub focused_storage_input: Option<usize>,
    pub pending_storage_discard: Option<usize>,
    pub prep_deck: Vec<Card>,
    pub pending_expedition_deck: Vec<Card>,
    pub selected_building: Option<BuildingKind>,
    /// Time spent on the current screen, in milliseconds.
    pub transition_timer: u64,
    pub should_quit: bool,
}

/// The largest base side for which every base pixel position fits in `i32`.
pub const MAX_BASE_SIZE: i32 = 60_000_000;

impl BaseState {
    fn starter() -> (b: BaseState)
        ensures
            b.size == 5,
            b.buildings.len() == 0,
            b.storage_capacity == 10,
            b.zoom_level == 1,
            b.camera_x == 0,
            b.camera_y == 0,
    {
        BaseState {
            size: 5,
            buildings: Vec::new(),
            storage_capacity: 10,
            zoom_level: 1,
            camera_x: 0,
            camera_y: 0,
        }
    }
}

/// What a building costs.
pub open spec fn cost_of(kind: BuildingKind) -> Resources {
    match kind {
        BuildingKind::Campfire => Resources { wood: 4, stone: 0, food: 0 },
        BuildingKind::Storehouse => Resources { wood: 4, stone: 2, food: 0 },
        BuildingKind::Workbench => Resources { wood: 5, stone: 1, food: 0 },
        BuildingKind::ResearchTable => Resources { wood: 5, stone: 3, food: 0 },
        BuildingKind::TrainingDummy => Resources { wood: 3, stone: 0, food: 1 },
    }
}

/// What a building costs.
pub fn building_cost(kind: BuildingKind) -> (c: Resources)
    ensures
        c == cost_of(kind),
{
    match kind {
        BuildingKind::Campfire => Resources { wood: 4, stone: 0, food: 0 },
        BuildingKind::Storehouse => Resources { wood: 4, stone: 2, food: 0 },
        BuildingKind::Workbench => Resources { wood: 5, stone: 1, food: 0 },
        BuildingKind::ResearchTable => Resources { wood: 5, stone: 3, food: 0 },
        BuildingKind::TrainingDummy => Resources { wood: 3, stone: 0, food: 1 },
    }
}

pub open spec fn display_name(kind: BuildingKind) -> Seq<char> {
    match kind {
        BuildingKind::Campfire => "Small Storehouse"@,
        BuildingKind::Storehouse => "Storehouse"@,
        BuildingKind::Workbench => "Workbench"@,
        BuildingKind::ResearchTable => "Research Table"@,
        BuildingKind::TrainingDummy => "Training Dummy"@,
    }
}

/// The name a building is shown under.
pub fn building_display_name(kind: BuildingKind) -> (s: &'static str)
    ensures
        s@ == display_name(kind),
{
    match kind {
        BuildingKind::Campfire => "Small Storehouse",
        BuildingKind::Storehouse => "Storehouse",
        BuildingKind::Workbench => "Workbench",
        BuildingKind::ResearchTable => "Research Table",
        BuildingKind::TrainingDummy => "Training Dummy",
    }
}

pub open spec fn screen_name(s: Screen) -> Seq<char> {
    match s {
        Screen::MainMenu => "MainMenu"@,
        Screen::TransitionToBase => "TransitionToBase"@,
        Screen::TransitionToExpedition => "TransitionToExpedition"@,
        Screen::Base => "Base"@,
        Screen::Expedition => "Expedition"@,
        Screen::GameOver => "GameOver"@,
    }
}

fn screen_label(s: Screen) -> (r: &'static str)
    ensures
        r@ == screen_name(s),
{
    match s {
        Screen::MainMenu => "MainMenu",
        Screen::TransitionToBase => "TransitionToBase",
        Screen::TransitionToExpedition => "TransitionToExpedition",
        Screen::Base => "Base",
        Screen::Expedition => "Expedition",
        Screen::GameOver => "GameOver",
    }
}

/// Every building stands inside a base of side `size`, and no two share a tile.
pub open spec fn buildings_placed(bs: Seq<Building>, size: int) -> bool {
    &&& forall|i: int| 0 <= i < bs.len() ==> 0 <= #[trigger] bs[i].x < size && 0 <= bs[i].y < size
    &&& forall|i: int, j: int|
        0 <= i < j < bs.len() ==> !(#[trigger] bs[i].x == #[trigger] bs[j].x && bs[i].y == bs[j].y)
}

/// No material is negative.
pub open spec fn nonneg(r: Resources) -> bool {
    r.wood >= 0 && r.stone >= 0 && r.food >= 0
}

/// Pixel size of a base tile at a zoom level.
pub open spec fn base_tile(zoom: int) -> int {
    12 + zoom * 4
}

/// Pixel gap between base tiles at a zoom level.
pub open spec fn base_gap(zoom: int) -> int {
    3 + zoom
}

/// Pixel side of a base of `size` tiles at a zoom level.
pub open spec fn base_extent(size: int, zoom: int) -> int {
    if size <= 0 {
        0
    } else {
        size * base_tile(zoom) + (size - 1) * base_gap(zoom)
    }
}

impl Game {
    /// The conditions every campaign state keeps: zoom levels within their ranges, a base
    /// side and capacity with room to grow, dialog indices within the three materials,
    /// a stock whose total fits in `i32`, and a well-formed expedition.
    pub open spec fn wf(&self) -> bool {
        &&& self.base.zoom_level <= 4
        &&& 0 <= self.base.size <= MAX_BASE_SIZE
        &&& buildings_placed(self.base.buildings@, self.base.size as int)
        &&& (self.focused_storage_input matches Some(i) ==> i < 3)
        &&& (self.pending_storage_discard matches Some(i) ==> i < 3)
        &&& fits_i32(total_of(self.resources))
        &&& nonneg(self.resources)
        &&& (self.expedition matches Some(e) ==> e.wf() && e.zoom_level <= 5 && e.view_fits() && nonneg(e.cargo))
    }

    /// The state the game starts in: the main menu of a fresh campaign.
    pub open spec fn is_fresh(&self) -> bool {
        &&& self.screen == Screen::MainMenu
        &&& self.message@ == "Select a menu option."@
        &&& self.is_fresh_campaign()
    }

    /// A campaign nothing has happened in yet (whatever the screen and message).
    pub open spec fn is_fresh_campaign(&self) -> bool {
        &&& self.base.size == 5
        &&& self.base.buildings.len() == 0
        &&& self.base.storage_capacity == 10
        &&& self.base.zoom_level == 1
        &&& self.base.camera_x == 0
        &&& self.base.camera_y == 0
        &&& self.expedition.is_none()
        &&& self.resources == Resources { wood: 8, stone: 4, food: 10 }
        &&& self.characters.len() == 2
        &&& crate::data::fresh_character(self.characters[0], "Lian"@, 24, 3, 1)
        &&& crate::data::fresh_character(self.characters[1], "Moro"@, 20, 4, 0)
        &&& self.technologies.len() == 1
        &&& self.technologies[0].id@ == "base_expansion_1"@
        &&& self.technologies[0].name@ == "Base Expansion I"@
        &&& !self.technologies[0].unlocked
        &&& !self.show_storage_dialog
        &&& !self.show_build_menu
        &&& !self.show_expedition_prep
        &&& !self.show_expedition_bag
        &&& !self.show_character_dialog
        &&& !self.show_crafting_dialog
        &&& self.build_menu_category == 0
        &&& !self.confirm_quit
        &&& self.storage_discard_inputs@ == seq![0i32, 0, 0]
        &&& self.discovered_resources@ == seq![false, false, true]
        &&& self.focused_storage_input.is_none()
        &&& self.pending_storage_discard.is_none()
        &&& self.prep_deck.len() == 0
        &&& self.pending_expedition_deck.len() == 0
        &&& self.selected_building.is_none()
        &&& self.transition_timer == 0
        &&& !self.should_quit
    }

    /// A fresh campaign at the main menu.
    pub fn new() -> (g: Game)
        ensures
            g.is_fresh(),
            g.wf(),
    {
        Game {
            screen: Screen::MainMenu,
            base: BaseState::starter(),
            expedition: None,
            resources: Resources::starter(),
            characters: Character::starter_roster(),
            technologies: Technology::starter_tree(),
            message: String::from_str("Select a menu option."),
            show_storage_dialog: false,
            show_build_menu: false,
            show_expedition_prep: false,
            show_expedition_bag: false,
            show_character_dialog: false,
            show_crafting_dialog: false,
            build_menu_category: 0,
            confirm_quit: false,
            storage_discard_inputs: [0, 0, 0],
            discovered_resources: [false, false, true],
            focused_storage_input: None,
            pending_storage_discard: None,
            prep_deck: Vec::new(),
            pending_expedition_deck: Vec::new(),
            selected_building: None,
            transition_timer: 0,
            should_quit: false,
        }
    }

    fn say(&mut self, text: &str)
        ensures
            final(self).message@ == text@,
            *final(self) == (Game { message: final(self).message, ..*old(self) }),
    {
        self.message = String::from_str(text);
    }

    /// Replaces the status message.
    pub fn set_message(&mut self, message: String)
        ensures
            *final(self) == (Game { message: message, ..*old(self) }),
    {
        self.message = message;
    }

    /// Starts the short loading screen that leads to a new campaign.
    pub fn begin_new_campaign_transition(&mut self)
        ensures
            final(self).message@ == "Preparing base..."@,
            *final(self) == (Game {
                screen: Screen::TransitionToBase,
                transition_timer: 0,
                message: final(self).message,
                ..*old(self)
            }),
    {
        self.screen = Screen::TransitionToBase;
        self.transition_timer = 0;
        self.say("Preparing base...");
    }

    /// Replaces the campaign by a fresh one, shown at the base.
    pub fn new_campaign(&mut self)
        ensures
            final(self).is_fresh_campaign(),
            final(self).screen == Screen::Base,
            final(self).message@ == "New campaign started. B build, T research, E explore."@,
            final(self).wf(),
    {
        *self = Game::new();
        self.screen = Screen::Base;
        self.say("New campaign started. B build, T research, E explore.");
    }
}

/// Whether some building of the base has the given kind.
pub open spec fn has_kind(buildings: Seq<Building>, kind: BuildingKind) -> bool {
    exists|i: int| 0 <= i < buildings.len() && #[trigger] buildings[i].kind == kind
}

/// Whether some building of the base stands on `(x, y)`.
pub open spec fn occupied(buildings: Seq<Building>, x: int, y: int) -> bool {
    exists|i: int| 0 <= i < buildings.len() && #[trigger] buildings[i].x == x && buildings[i].y == y
}

impl Game {
    /// Opens the build menu on its first category, closing every other dialog.
    pub fn open_build_menu(&mut self)
        ensures
            final(self).message@ == "Choose a building."@,
            *final(self) == (Game {
                confirm_quit: false,
                show_storage_dialog: false,
                show_expedition_prep: false,
                show_character_dialog: false,
                show_crafting_dialog: false,
                show_build_menu: true,
                selected_building: None,
                build_menu_category: 0,
                message: final(self).message,
                ..*old(self)
            }),
    {
        self.confirm_quit = false;
        self.show_storage_dialog = false;
        self.show_expedition_prep = false;
        self.show_character_dialog = false;
        self.show_crafting_dialog = false;
        self.show_build_menu = true;
        self.selected_building = None;
        self.build_menu_category = 0;
        self.say("Choose a building.");
    }

    pub fn close_build_menu(&mut self)
        ensures
            final(self).message@ == "Build menu closed."@,
            *final(self) == (Game { show_build_menu: false, message: final(self).message, ..*old(self) }),
    {
        self.show_build_menu = false;
        self.say("Build menu closed.");
    }

    /// Switches the build menu to category 0 (storage) or 1 (stations); larger values mean 1.
    pub fn set_build_menu_category(&mut self, category: usize)
        ensures
            final(self).message@ == "Choose a building."@,
            *final(self) == (Game {
                build_menu_category: if category < 1 { category } else { 1 },
                message: final(self).message,
                ..*old(self)
            }),
    {
        self.build_menu_category = if category < 1 { category } else { 1 };
        self.say("Choose a building.");
    }

    /// Picks a building to place; the next click on a base tile places it.
    pub fn select_building(&mut self, kind: BuildingKind)
        ensures
            final(self).message@ == "Selected "@ + display_name(kind) + ". Click a base tile."@,
            *final(self) == (Game {
                show_build_menu: false,
                show_expedition_prep: false,
                selected_building: Some(kind),
                message: final(self).message,
                ..*old(self)
            }),
    {
        self.show_build_menu = false;
        self.show_expedition_prep = false;
        self.selected_building = Some(kind);
        let mut m = String::from_str("Selected ");
        m.append(building_display_name(kind));
        m.append(". Click a base tile.");
        self.message = m;
    }

    pub fn cancel_building_placement(&mut self)
        ensures
            final(self).message@ == "Building placement cancelled."@,
            *final(self) == (Game { selected_building: None, message: final(self).message, ..*old(self) }),
    {
        self.selected_building = None;
        self.say("Building placement cancelled.");
    }

    /// Cancels a pending placement, if there is one; otherwise nothing changes.
    pub fn cancel_building_if_selected(&mut self)
        ensures
            old(self).selected_building.is_some() ==> final(self).message@ == "Building placement cancelled."@
                && *final(self) == (Game { selected_building: None, message: final(self).message, ..*old(self) }),
            old(self).selected_building.is_none() ==> *final(self) == *old(self),
    {
        if self.selected_building.is_some() {
            self.selected_building = None;
            self.say("Building placement cancelled.");
        }
    }

    pub fn show_expedition_bag(&mut self)
        ensures
            final(self).message@ == "Expedition bag opened."@,
            *final(self) == (Game { show_expedition_bag: true, message: final(self).message, ..*old(self) }),
    {
        self.show_expedition_bag = true;
        self.say("Expedition bag opened.");
    }

    pub fn hide_expedition_bag(&mut self)
        ensures
            final(self).message@ == "Expedition bag closed."@,
            *final(self) == (Game { show_expedition_bag: false, message: final(self).message, ..*old(self) }),
    {
        self.show_expedition_bag = false;
        self.say("Expedition bag closed.");
    }

    /// Opens the storage dialog, closing the others and cancelling a placement.
    pub fn show_storage_dialog(&mut self)
        ensures
            final(self).message@ == "Storage opened."@,
            *final(self) == (Game {
                confirm_quit: false,
                show_character_dialog: false,
                show_crafting_dialog: false,
                show_build_menu: false,
                show_expedition_prep: false,
                selected_building: None,
                show_storage_dialog: true,
                focused_storage_input: None,
                pending_storage_discard: None,
                message: final(self).message,
                ..*old(self)
            }),
    {
        self.confirm_quit = false;
        self.show_character_dialog = false;
        self.show_crafting_dialog = false;
        self.show_build_menu = false;
        self.show_expedition_prep = false;
        self.selected_building = None;
        self.show_storage_dialog = true;
        self.focused_storage_input = None;
        self.pending_storage_discard = None;
        self.say("Storage opened.");
    }

    pub fn hide_storage_dialog(&mut self)
        ensures
            final(self).message@ == "Storage closed."@,
            *final(self) == (Game {
                show_storage_dialog: false,
                focused_storage_input: None,
                pending_storage_discard: None,
                message: final(self).message,
                ..*old(self)
            }),
    {
        self.show_storage_dialog = false;
        self.focused_storage_input = None;
        self.pending_storage_discard = None;
        self.say("Storage closed.");
    }

    pub fn request_quit_confirmation(&mut self)
        ensures
            final(self).message@ == "Confirm quit."@,
            *final(self) == (Game { confirm_quit: true, message: final(self).message, ..*old(self) }),
    {
        self.confirm_quit = true;
        self.say("Confirm quit.");
    }

    pub fn cancel_quit_confirmation(&mut self)
        ensures
            final(self).message@ == "Quit cancelled."@,
            *final(self) == (Game { confirm_quit: false, message: final(self).message, ..*old(self) }),
    {
        self.confirm_quit = false;
        self.say("Quit cancelled.");
    }

    /// Opens the character dialog, closing the others and cancelling a placement.
    pub fn show_character_dialog(&mut self)
        ensures
            final(self).message@ == "Character opened."@,
            *final(self) == (Game {
                confirm_quit: false,
                show_storage_dialog: false,
                show_crafting_dialog: false,
                show_build_menu: false,
                show_expedition_prep: false,
                selected_building: None,
                show_character_dialog: true,
                message: final(self).message,
                ..*old(self)
            }),
    {
        self.confirm_quit = false;
        self.show_storage_dialog = false;
        self.show_crafting_dialog = false;
        self.show_build_menu = false;
        self.show_expedition_prep = false;
        self.selected_building = None;
        self.show_character_dialog = true;
        self.say("Character opened.");
    }

    pub fn hide_character_dialog(&mut self)
        ensures
            final(self).message@ == "Character closed."@,
            *final(self) == (Game { show_character_dialog: false, message: final(self).message, ..*old(self) }),
    {
        self.show_character_dialog = false;
        self.say("Character closed.");
    }

    /// Opens the crafting dialog when the base has a workbench; otherwise only says so.
    pub fn show_crafting_dialog(&mut self)
        ensures
            !has_kind(old(self).base.buildings@, BuildingKind::Workbench) ==> final(self).message@
                == "Build a Workbench first."@ && *final(self) == (Game { message: final(self).message, ..*old(self) }),
            has_kind(old(self).base.buildings@, BuildingKind::Workbench) ==> final(self).message@
                == "Crafting opened."@ && *final(self) == (Game {
                confirm_quit: false,
                show_storage_dialog: false,
                show_character_dialog: false,
                show_build_menu: false,
                show_expedition_prep: false,
                selected_building: None,
                show_crafting_dialog: true,
                message: final(self).message,
                ..*old(self)
            }),
    {
        if !self.has_building(BuildingKind::Workbench) {
            self.say("Build a Workbench first.");
            return;
        }
        self.confirm_quit = false;
        self.show_storage_dialog = false;
        self.show_character_dialog = false;
        self.show_build_menu = false;
        self.show_expedition_prep = false;
        self.selected_building = None;
        self.show_crafting_dialog = true;
        self.say("Crafting opened.");
    }

    pub fn hide_crafting_dialog(&mut self)
        ensures
            final(self).message@ == "Crafting closed."@,
            *final(self) == (Game { show_crafting_dialog: false, message: final(self).message, ..*old(self) }),
    {
        self.show_crafting_dialog = false;
        self.say("Crafting closed.");
    }

    /// Whether the base has a building of the given kind.
    pub fn has_building(&self, kind: BuildingKind) -> (b: bool)
        ensures
            b == has_kind(self.base.buildings@, kind),
    {
        let mut i: usize = 0;
        while i < self.base.buildings.len()
            invariant
                i <= self.base.buildings.len(),
                forall|j: int| 0 <= j < i ==> #[trigger] self.base.buildings@[j].kind != kind,
            decreases self.base.buildings.len() - i,
        {
            if self.base.buildings[i].kind == kind {
                return true;
            }
            i = i + 1;
        }
        false
    }

    /// Whether a building stands on `(x, y)`.
    pub fn tile_occupied(&self, x: i32, y: i32) -> (b: bool)
        ensures
            b == occupied(self.base.buildings@, x as int, y as int),
    {
        let mut i: usize = 0;
        while i < self.base.buildings.len()
            invariant
                i <= self.base.buildings.len(),
                forall|j: int| 0 <= j < i ==> !(#[trigger] self.base.buildings@[j].x == x && self.base.buildings@[j].y == y),
            decreases self.base.buildings.len() - i,
        {
            if self.base.buildings[i].x == x && self.base.buildings[i].y == y {
                return true;
            }
            i = i + 1;
        }
        false
    }

    /// Opens the expedition preparation with no card chosen yet.
    pub fn open_expedition_prep(&mut self)
        ensures
            final(self).message@ == "Choose cards for the expedition."@,
            final(self).prep_deck.len() == 0,
            *final(self) == (Game {
                show_storage_dialog: false,
                show_build_menu: false,
                show_character_dialog: false,
                show_crafting_dialog: false,
                show_expedition_prep: true,
                prep_deck: final(self).prep_deck,
                selected_building: None,
                message: final(self).message,
                ..*old(self)
            }),
    {
        self.show_storage_dialog = false;
        self.show_build_menu = false;
        self.show_character_dialog = false;
        self.show_crafting_dialog = false;
        self.show_expedition_prep = true;
        self.prep_deck.clear();
        self.selected_building = None;
        self.say("Choose cards for the expedition.");
    }

    pub fn close_expedition_prep(&mut self)
        ensures
            final(self).message@ == "Expedition preparation cancelled."@,
            final(self).prep_deck.len() == 0,
            *final(self) == (Game {
                show_expedition_prep: false,
                prep_deck: final(self).prep_deck,
                message: final(self).message,
                ..*old(self)
            }),
    {
        self.show_expedition_prep = false;
        self.prep_deck.clear();
        self.say("Expedition preparation cancelled.");
    }

    /// Adds a card to the expedition deck, unless it already holds `MAX_PREP_CARDS`.
    pub fn add_prep_card(&mut self, card: Card)
        ensures
            old(self).prep_deck.len() <= MAX_PREP_CARDS ==> final(self).prep_deck.len() <= MAX_PREP_CARDS,
            prep_card_added(*old(self), *final(self), card),
    {
        if self.prep_deck.len() >= MAX_PREP_CARDS {
            self.say("The expedition deck is full.");
            return;
        }
        self.prep_deck.push(card);
        let mut m = String::from_str("Selected ");
        append_count(&mut m, self.prep_deck.len());
        m.append(" card(s).");
        self.message = m;
    }

    /// Removes the card at `index` from the expedition deck; an index past the end does nothing.
    pub fn remove_prep_card(&mut self, index: usize)
        ensures
            prep_card_removed(*old(self), *final(self), index),
    {
        if index < self.prep_deck.len() {
            self.prep_deck.remove(index);
            let mut m = String::from_str("Selected ");
            append_count(&mut m, self.prep_deck.len());
            m.append(" card(s).");
            self.message = m;
        }
    }

    /// Food needed to carry the chosen cards.
    pub fn prep_food_cost(&self) -> (c: i32)
        requires
            food_cost_of(self.prep_deck@) <= i32::MAX,
        ensures
            c == food_cost_of(self.prep_deck@),
    {
        total_food_cost(&self.prep_deck)
    }

    /// Whether the prepared expedition can leave, and if not why: no card chosen, not enough
    /// food for the chosen cards, or storage still over capacity once that food is gone.
    pub open spec fn block_reason(&self) -> Option<DepartBlockReason> {
        let cost = food_cost_of(self.prep_deck@);
        if self.prep_deck.len() == 0 {
            Some(DepartBlockReason::EmptyDeck)
        } else if self.resources.food < cost {
            Some(DepartBlockReason::Food)
        } else if total_of(self.resources) - cost > self.base.storage_capacity {
            Some(DepartBlockReason::Capacity)
        } else {
            None
        }
    }

    pub fn depart_block_reason(&self) -> (r: Option<DepartBlockReason>)
        requires
            self.wf(),
            food_cost_of(self.prep_deck@) <= i32::MAX,
        ensures
            r == self.block_reason(),
    {
        if self.prep_deck.len() == 0 {
            return Some(DepartBlockReason::EmptyDeck);
        }
        let food_cost = self.prep_food_cost();
        proof {
            crate::card::lemma_food_cost_nonneg(self.prep_deck@);
        }
        if self.resources.food < food_cost {
            return Some(DepartBlockReason::Food);
        }
        let used = self.storage_used();
        if used as i64 - food_cost as i64 > self.storage_capacity() as i64 {
            return Some(DepartBlockReason::Capacity);
        }
        None
    }

    /// Spends the food for `deck` and starts the departure to a new expedition with it, if
    /// the prepared expedition may depart; otherwise explains why not.
    pub fn start_expedition(&mut self, deck: Vec<Card>)
        requires
            old(self).wf(),
            food_cost_of(old(self).prep_deck@) <= i32::MAX,
            food_cost_of(deck@) <= i32::MAX,
            fits_i32(old(self).resources.food - food_cost_of(deck@)),
        ensures
            departed(*old(self), *final(self), deck@),
    {
        if let Some(reason) = self.depart_block_reason() {
            self.say(reason.message());
            return;
        }
        proof {
            crate::card::lemma_food_cost_nonneg(deck@);
        }
        let food_cost = total_food_cost(&deck);
        self.resources.food = self.resources.food - food_cost;
        self.show_expedition_prep = false;
        self.pending_expedition_deck = deck;
        self.prep_deck.clear();
        self.transition_timer = 0;
        self.screen = Screen::TransitionToExpedition;
        self.say("Departing for the expedition...");
    }

    /// Capacity of the base storage.
    pub fn storage_capacity(&self) -> (c: i32)
        ensures
            c == self.base.storage_capacity,
    {
        self.base.storage_capacity
    }

    /// Amount of material in storage.
    pub fn storage_used(&self) -> (u: i32)
        requires
            self.wf(),
        ensures
            u == total_of(self.resources),
    {
        self.resources.total()
    }

    pub fn storage_is_over_capacity(&self) -> (b: bool)
        requires
            self.wf(),
        ensures
            b == (total_of(self.resources) > self.base.storage_capacity),
    {
        self.storage_used() > self.storage_capacity()
    }
}

/// `lo` if `v` is below it, `hi` if above, else `v`.
pub open spec fn clamp(v: int, lo: int, hi: int) -> int {
    if v < lo {
        lo
    } else if v > hi {
        hi
    } else {
        v
    }
}

/// The discovered flags once every material held in a positive amount is marked.
pub open spec fn discovered_after(flags: Seq<bool>, r: Resources) -> Seq<bool> {
    Seq::new(3, |i: int| flags[i] || material(r, i) > 0)
}

/// Integer division by ten rounding toward zero.
pub open spec fn tenth(v: int) -> int {
    if v >= 0 {
        v / 10
    } else {
        -((-v) / 10)
    }
}

impl Game {
    /// The storage rows to show: each material index, in order, that was discovered or is
    /// held in a positive amount.
    pub fn visible_storage_indices(&self) -> (v: Vec<usize>)
        ensures
            v.len() <= 3,
            forall|k: int| 0 <= k < v.len() ==> #[trigger] v@[k] < 3,
            v@ == seq![0usize, 1, 2].filter(
                |i: usize| self.discovered_resources@[i as int] || material(self.resources, i as int) > 0,
            ),
    {
        let ghost keep = |i: usize| self.discovered_resources@[i as int] || material(self.resources, i as int) > 0;
        let ghost all = seq![0usize, 1, 2];
        let mut v: Vec<usize> = Vec::new();
        let mut index: usize = 0;
        proof {
            assert(all.take(0).filter(keep) =~= Seq::<usize>::empty());
        }
        while index < 3
            invariant
                index <= 3,
                all == seq![0usize, 1, 2],
                keep == (|i: usize| self.discovered_resources@[i as int] || material(self.resources, i as int) > 0),
                v@ == all.take(index as int).filter(keep),
                v.len() <= index,
                forall|k: int| 0 <= k < v.len() ==> #[trigger] v@[k] < index,
            decreases 3 - index,
        {
            proof {
                reveal_with_fuel(Seq::filter, 2);
                assert(all.take(index + 1).drop_last() =~= all.take(index as int));
                assert(all[index as int] == index);
            }
            if self.discovered_resources[index] || self.resources.amount(index) > 0 {
                v.push(index);
            }
            index = index + 1;
        }
        proof {
            assert(all.take(3) =~= all);
        }
        v
    }

    /// Marks every material held in a positive amount as discovered.
    pub fn refresh_discovered_resources(&mut self)
        ensures
            final(self).discovered_resources@ == discovered_after(old(self).discovered_resources@, old(self).resources),
            *final(self) == (Game { discovered_resources: final(self).discovered_resources, ..*old(self) }),
    {
        let mut index: usize = 0;
        while index < 3
            invariant
                index <= 3,
                *self == (Game { discovered_resources: self.discovered_resources, ..*old(self) }),
                forall|i: int| 0 <= i < 3 ==> #[trigger] self.discovered_resources@[i] == if i < index {
                    old(self).discovered_resources@[i] || material(old(self).resources, i) > 0
                } else {
                    old(self).discovered_resources@[i]
                },
            decreases 3 - index,
        {
            if self.resources.amount(index) > 0 {
                self.discovered_resources.set(index, true);
            }
            index = index + 1;
        }
        proof {
            assert(self.discovered_resources@ =~= discovered_after(old(self).discovered_resources@, old(self).resources));
        }
    }

    /// Focuses the discard amount field of a material; other indices do nothing.
    pub fn focus_storage_input(&mut self, index: usize)
        ensures
            index < 3 ==> *final(self) == (Game {
                focused_storage_input: Some(index),
                pending_storage_discard: None,
                ..*old(self)
            }),
            index >= 3 ==> *final(self) == *old(self),
    {
        if index < 3 {
            self.focused_storage_input = Some(index);
            self.pending_storage_discard = None;
        }
    }

    /// Changes the discard amount of a material by `delta`, kept between zero and the amount
    /// held, and focuses it.
    pub fn adjust_storage_discard_input(&mut self, index: usize, delta: i32)
        requires
            old(self).wf(),
            index < 3 ==> fits_i32(old(self).storage_discard_inputs@[index as int] + delta),
        ensures
            index >= 3 ==> *final(self) == *old(self),
            index < 3 ==> *final(self) == (Game {
                storage_discard_inputs: final(self).storage_discard_inputs,
                focused_storage_input: Some(index),
                pending_storage_discard: None,
                ..*old(self)
            }) && final(self).storage_discard_inputs@ == old(self).storage_discard_inputs@.update(
                index as int,
                clamp(old(self).storage_discard_inputs@[index as int] + delta, 0, material(old(self).resources, index as int)) as i32,
            ),
    {
        if index >= 3 {
            return;
        }
        let max_amount = self.resources.amount(index);
        let v = self.storage_discard_inputs[index] + delta;
        let c = if v < 0 {
            0
        } else if v > max_amount {
            max_amount
        } else {
            v
        };
        self.storage_discard_inputs.set(index, c);
        self.focused_storage_input = Some(index);
        self.pending_storage_discard = None;
    }

    /// Types a digit into the focused discard amount, kept between zero and the amount held.
    pub fn append_storage_discard_digit(&mut self, digit: i32)
        requires
            old(self).wf(),
            old(self).focused_storage_input matches Some(i) ==> fits_i32(old(self).storage_discard_inputs@[i as int] * 10)
                && fits_i32(old(self).storage_discard_inputs@[i as int] * 10 + digit),
        ensures
            digit_typed(*old(self), *final(self), digit),
    {
        let Some(index) = self.focused_storage_input else {
            return;
        };
        let max_amount = self.resources.amount(index);
        let v = self.storage_discard_inputs[index] * 10 + digit;
        let c = if v < 0 {
            0
        } else if v > max_amount {
            max_amount
        } else {
            v
        };
        self.storage_discard_inputs.set(index, c);
        self.pending_storage_discard = None;
    }

    /// Removes the last digit of the focused discard amount.
    pub fn backspace_storage_discard_input(&mut self)
        requires
            old(self).wf(),
        ensures
            digit_erased(*old(self), *final(self)),
    {
        let Some(index) = self.focused_storage_input else {
            return;
        };
        let v = self.storage_discard_inputs[index];
        let c = if v >= 0 {
            v / 10
        } else {
            -((-(v as i64)) / 10) as i32
        };
        self.storage_discard_inputs.set(index, c);
        self.pending_storage_discard = None;
    }

    /// Asks to confirm discarding the typed amount of a material, if it is positive and
    /// no more than the amount held.
    pub fn request_storage_discard(&mut self, index: usize)
        ensures
            index >= 3 ==> *final(self) == *old(self),
            index < 3 && old(self).storage_discard_inputs@[index as int] <= 0 ==> final(self).message@
                == "Discard amount must be greater than 0."@ && *final(self) == (Game { message: final(self).message, ..*old(self) }),
            index < 3 && old(self).storage_discard_inputs@[index as int] > 0 && old(self).storage_discard_inputs@[index as int]
                > material(old(self).resources, index as int) ==> final(self).message@ == "Not enough material to discard."@
                && *final(self) == (Game { message: final(self).message, ..*old(self) }),
            index < 3 && 0 < old(self).storage_discard_inputs@[index as int] <= material(old(self).resources, index as int)
                ==> final(self).message@ == "Confirm discard."@ && *final(self) == (Game {
                pending_storage_discard: Some(index),
                message: final(self).message,
                ..*old(self)
            }),
    {
        if index >= 3 {
            return;
        }
        let amount = self.storage_discard_inputs[index];
        if amount <= 0 {
            self.say("Discard amount must be greater than 0.");
            return;
        }
        if amount > self.resources.amount(index) {
            self.say("Not enough material to discard.");
            return;
        }
        self.pending_storage_discard = Some(index);
        self.say("Confirm discard.");
    }

    /// Discards the confirmed amount: the material is reduced (never below zero), the amount
    /// field is reset and stays focused, and the message reports what was removed.
    pub fn confirm_storage_discard(&mut self)
        requires
            old(self).wf(),
        ensures
            old(self).pending_storage_discard is None ==> *final(self) == *old(self),
            old(self).pending_storage_discard matches Some(i) ==> {
                let removed = discard_amount(material(old(self).resources, i as int), old(self).storage_discard_inputs@[i as int] as int);
                let r = with_material(old(self).resources, i as int, (material(old(self).resources, i as int) - removed) as i32);
                &&& final(self).message@ == "Discarded "@ + decimal(removed) + " material."@
                &&& final(self).storage_discard_inputs@ == old(self).storage_discard_inputs@.update(i as int, 0)
                &&& final(self).discovered_resources@ == discovered_after(old(self).discovered_resources@, r)
                &&& *final(self) == (Game {
                    resources: r,
                    storage_discard_inputs: final(self).storage_discard_inputs,
                    discovered_resources: final(self).discovered_resources,
                    pending_storage_discard: None,
                    focused_storage_input: Some(i),
                    message: final(self).message,
                    ..*old(self)
                })
            },
            final(self).wf(),
    {
        let Some(index) = self.pending_storage_discard else {
            return;
        };
        self.pending_storage_discard = None;
        let amount = self.storage_discard_inputs[index];
        let discarded = self.resources.discard(index, amount);
        self.refresh_discovered_resources();
        self.storage_discard_inputs.set(index, 0);
        self.focused_storage_input = Some(index);
        let mut m = String::from_str("Discarded ");
        append_int(&mut m, discarded as i64);
        m.append(" material.");
        self.message = m;
    }

    pub fn cancel_storage_discard(&mut self)
        ensures
            final(self).message@ == "Discard cancelled."@,
            *final(self) == (Game { pending_storage_discard: None, message: final(self).message, ..*old(self) }),
    {
        self.pending_storage_discard = None;
        self.say("Discard cancelled.");
    }
}

/// `a + b`, kept within `i32`.
pub open spec fn sat_add(a: int, b: int) -> int {
    clamp(a + b, i32::MIN as int, i32::MAX as int)
}

fn saturating_add_i32(a: i32, b: i32) -> (r: i32)
    ensures
        r == sat_add(a as int, b as int),
{
    let s = a as i64 + b as i64;
    if s < i32::MIN as i64 {
        i32::MIN
    } else if s > i32::MAX as i64 {
        i32::MAX
    } else {
        s as i32
    }
}

impl Game {
    /// Pixel size of a base tile at the current zoom.
    pub fn base_tile_size(&self) -> (s: usize)
        requires
            self.wf(),
        ensures
            s == base_tile(self.base.zoom_level as int),
    {
        12 + self.base.zoom_level * 4
    }

    /// Pixel gap between base tiles at the current zoom.
    pub fn base_tile_gap(&self) -> (s: usize)
        requires
            self.wf(),
        ensures
            s == base_gap(self.base.zoom_level as int),
    {
        3 + self.base.zoom_level
    }

    /// Pixel width and height of the base at the current zoom.
    pub fn base_content_size(&self) -> (size: (usize, usize))
        requires
            self.wf(),
        ensures
            size.0 == base_extent(self.base.size as int, self.base.zoom_level as int),
            size.1 == size.0,
            size.0 <= 2_100_000_000,
    {
        let size: usize = if self.base.size > 0 { self.base.size as usize } else { 0 };
        if size == 0 {
            return (0, 0);
        }
        let tile_size = self.base_tile_size();
        let gap = self.base_tile_gap();
        proof {
            assert(size * tile_size + (size - 1) * gap <= 60_000_000 * 28 + 60_000_000 * 7) by (nonlinear_arith)
                requires size <= 60_000_000, tile_size <= 28, gap <= 7, size >= 1;
        }
        let total = size * tile_size + (size - 1) * gap;
        (total, total)
    }

    /// Screen position of the base's top-left corner in a viewport: centred on an axis where
    /// the base fits, else shifted by the camera.
    pub fn base_origin(&self, viewport_width: usize, viewport_height: usize) -> (o: (i32, i32))
        requires
            self.wf(),
            self.base.camera_x > i32::MIN,
            self.base.camera_y > i32::MIN,
        ensures
            o.0 == origin_axis(base_extent(self.base.size as int, self.base.zoom_level as int), viewport_width as int, self.base.camera_x as int),
            o.1 == origin_axis(base_extent(self.base.size as int, self.base.zoom_level as int), viewport_height as int, self.base.camera_y as int),
    {
        let (content_width, content_height) = self.base_content_size();
        let x = if content_width <= viewport_width {
            ((viewport_width - content_width) / 2) as i32
        } else {
            -self.base.camera_x
        };
        let y = if content_height <= viewport_height {
            ((viewport_height - content_height) / 2) as i32
        } else {
            -self.base.camera_y
        };
        (x, y)
    }

    /// Keeps the base camera inside the scrollable range of a viewport.
    pub fn clamp_base_camera(&mut self, viewport_width: usize, viewport_height: usize)
        requires
            old(self).wf(),
        ensures
            final(self).base.camera_x == clamp_axis(old(self).base.camera_x as int, base_extent(old(self).base.size as int, old(self).base.zoom_level as int), viewport_width as int),
            final(self).base.camera_y == clamp_axis(old(self).base.camera_y as int, base_extent(old(self).base.size as int, old(self).base.zoom_level as int), viewport_height as int),
            *final(self) == (Game {
                base: BaseState { camera_x: final(self).base.camera_x, camera_y: final(self).base.camera_y, ..old(self).base },
                ..*old(self)
            }),
    {
        let (content_width, content_height) = self.base_content_size();
        self.base.camera_x = clamp_camera_axis(self.base.camera_x, content_width, viewport_width);
        self.base.camera_y = clamp_camera_axis(self.base.camera_y, content_height, viewport_height);
    }

    /// Moves the base camera by whole pixels (saturating), then keeps it in range.
    pub fn pan_base_camera(&mut self, dx: i32, dy: i32, viewport_width: usize, viewport_height: usize)
        requires
            old(self).wf(),
        ensures
            base_panned(*old(self), *final(self), dx as int, dy as int, viewport_width as int, viewport_height as int),
    {
        self.base.camera_x = saturating_add_i32(self.base.camera_x, dx);
        self.base.camera_y = saturating_add_i32(self.base.camera_y, dy);
        self.clamp_base_camera(viewport_width, viewport_height);
    }

    /// Zooms the base view by `delta` levels within 0 to 4; on a change the camera is kept
    /// in range for the base viewport and the new zoom is reported.
    pub fn adjust_base_zoom(&mut self, delta: i32)
        requires
            old(self).wf(),
        ensures
            final(self).wf(),
            base_zoomed(*old(self), *final(self), delta as int),
    {
        let v = self.base.zoom_level as i64 + delta as i64;
        let next: usize = if v < 0 {
            0
        } else if v > 4 {
            4
        } else {
            v as usize
        };
        if next != self.base.zoom_level {
            self.base.zoom_level = next;
            self.clamp_base_camera(1000, 696);
            let mut m = String::from_str("Base zoom ");
            append_count(&mut m, self.base.zoom_level + 1);
            m.append("x.");
            self.message = m;
        }
    }

    /// Zooms the expedition map by `delta` levels within 0 to 5; on a change the camera is
    /// kept in range for the viewport and the new zoom is reported.
    pub fn adjust_expedition_zoom(&mut self, delta: i32, viewport_width: usize, viewport_height: usize)
        requires
            old(self).wf(),
            old(self).expedition matches Some(e) ==> ({
                let next = clamp(e.zoom_level + delta, 0, 5);
                (ExpeditionState { zoom_level: next as usize, ..e }).view_fits()
            }),
        ensures
            final(self).wf(),
            expedition_zoomed(*old(self), *final(self), delta as int, viewport_width as int, viewport_height as int),
    {
        let Some(expedition) = self.expedition.as_mut() else {
            return;
        };
        let v = expedition.zoom_level as i64 + delta as i64;
        let next: usize = if v < 0 {
            0
        } else if v > 5 {
            5
        } else {
            v as usize
        };
        if next != expedition.zoom_level {
            expedition.zoom_level = next;
            expedition.clamp_camera(viewport_width, viewport_height);
            let mut m = String::from_str("Expedition zoom ");
            append_count(&mut m, expedition.zoom_level + 1);
            m.append("x.");
            self.message = m;
        }
    }

    /// Moves the expedition camera by whole pixels (saturating), then keeps it in range.
    pub fn pan_expedition_camera(&mut self, dx: i32, dy: i32, viewport_width: usize, viewport_height: usize)
        requires
            old(self).wf(),
        ensures
            final(self).wf(),
            expedition_panned(*old(self), *final(self), dx as int, dy as int, viewport_width as int, viewport_height as int),
    {
        let Some(expedition) = self.expedition.as_mut() else {
            return;
        };
        expedition.camera_x = saturating_add_i32(expedition.camera_x, dx);
        expedition.camera_y = saturating_add_i32(expedition.camera_y, dy);
        expedition.clamp_camera(viewport_width, viewport_height);
    }

    /// Progress of the current loading screen in thousandths: the time spent over 750 ms
    /// before an expedition, over 900 ms otherwise, at most 1000.
    pub fn transition_progress(&self) -> (p: u32)
        ensures
            p == ({
                let duration: int = if self.screen == Screen::TransitionToExpedition { 750 } else { 900 };
                if self.transition_timer >= duration { 1000 } else { self.transition_timer * 1000 / duration }
            }),
    {
        let duration: u64 = if self.screen == Screen::TransitionToExpedition { 750 } else { 900 };
        if self.transition_timer >= duration {
            1000
        } else {
            (self.transition_timer * 1000 / duration) as u32
        }
    }

    /// The window title: the game's name, the screen and the status message.
    pub fn window_title(&self) -> (t: String)
        ensures
            t@ == "Gruntia | "@ + screen_name(self.screen) + " | "@ + self.message@,
    {
        let mut t = String::from_str("Gruntia | ");
        t.append(screen_label(self.screen));
        t.append(" | ");
        t.append(self.message.as_str());
        t
    }

    /// Places the selected building on base tile `(x, y)` if the tile is inside the base,
    /// free, and the building is affordable; otherwise reports why not. A small storehouse
    /// raises the storage capacity by 10.
    pub fn place_selected_building(&mut self, x: i32, y: i32)
        requires
            old(self).wf(),
            old(self).selected_building == Some(BuildingKind::Campfire) && 0 <= x < old(self).base.size && 0 <= y
                < old(self).base.size && !occupied(old(self).base.buildings@, x as int, y as int) && affords(
                old(self).resources,
                cost_of(BuildingKind::Campfire),
            ) ==> old(self).base.storage_capacity <= i32::MAX - 10,
        ensures
            final(self).wf(),
            building_placed(*old(self), *final(self), x, y),
    {
        let Some(kind) = self.selected_building else {
            return;
        };
        if x < 0 || y < 0 || x >= self.base.size || y >= self.base.size {
            self.say("Cannot build outside the base.");
            return;
        }
        if self.tile_occupied(x, y) {
            self.say("That tile is already occupied.");
            return;
        }
        let cost = building_cost(kind);
        if !self.resources.can_afford(&cost) {
            self.say("Not enough resources to build.");
            return;
        }
        self.resources.spend(&cost);
        self.base.buildings.push(Building { kind, x, y, level: 1 });
        if kind == BuildingKind::Campfire {
            self.base.storage_capacity = self.base.storage_capacity + 10;
        }
        self.selected_building = None;
        let mut m = String::from_str("Built ");
        m.append(building_display_name(kind));
        m.append(".");
        self.message = m;
    }

    /// Researches Base Expansion I when the base has a research table, the technology is
    /// still locked and 5 wood and 5 stone are at hand: the base grows by 8 tiles a side.
    pub fn unlock_first_technology(&mut self)
        requires
            old(self).wf(),
            old(self).technologies.len() >= 1,
            old(self).base.size <= MAX_BASE_SIZE - 8,
        ensures
            final(self).wf(),
            researched(*old(self), *final(self)),
    {
        if !self.has_building(BuildingKind::ResearchTable) {
            self.say("Build a Research Table first.");
            return;
        }
        let cost = Resources { wood: 5, stone: 5, food: 0 };
        if self.technologies[0].unlocked {
            self.say("Technology already unlocked.");
            return;
        }
        if !self.resources.can_afford(&cost) {
            self.say("Need 5 wood and 5 stone for Base Expansion I.");
            return;
        }
        self.resources.spend(&cost);
        let mut tech = self.technologies.remove(0);
        tech.unlocked = true;
        self.technologies.insert(0, tech);
        self.base.size = self.base.size + 8;
        self.clamp_base_camera(1000, 696);
        self.say("Unlocked Base Expansion I. Base expanded.");
    }
}

/// Some character is still alive.
pub open spec fn anyone_alive(cs: Seq<Character>) -> bool {
    exists|i: int| 0 <= i < cs.len() && #[trigger] cs[i].alive
}

/// The report of an evacuation with the given cargo.
pub open spec fn evacuation_text(cargo: Resources, starved: bool) -> Seq<char> {
    "Evacuated with "@ + decimal(cargo.wood as int) + " wood, "@ + decimal(cargo.stone as int) + " stone, "@
        + decimal(cargo.food as int) + if starved {
        " food, but food was below 3. Campaign failed."@
    } else {
        " food. Consumed 3 food."@
    }
}

/// The stock after bringing a cargo home.
pub open spec fn stock_with(r: Resources, cargo: Resources) -> Resources {
    Resources {
        wood: (r.wood + cargo.wood) as i32,
        stone: (r.stone + cargo.stone) as i32,
        food: (r.food + cargo.food) as i32,
    }
}

/// What researching makes of game `g`: without a research table, with the technology
/// already unlocked, or without 5 wood and 5 stone it is refused with a notice; otherwise
/// the materials are paid, the first technology is unlocked and the base grows by 8 tiles
/// a side, the view kept in range.
pub open spec fn researched(g: Game, f: Game) -> bool {
    &&& !has_kind(g.base.buildings@, BuildingKind::ResearchTable) ==> f.message@
        == "Build a Research Table first."@ && f == (Game { message: f.message, ..g })
    &&& has_kind(g.base.buildings@, BuildingKind::ResearchTable) && g.technologies[0].unlocked
        ==> f.message@ == "Technology already unlocked."@ && f == (Game { message: f.message, ..g })
    &&& has_kind(g.base.buildings@, BuildingKind::ResearchTable) && !g.technologies[0].unlocked
        && !affords(g.resources, Resources { wood: 5, stone: 5, food: 0 }) ==> f.message@
        == "Need 5 wood and 5 stone for Base Expansion I."@ && f == (Game { message: f.message, ..g })
    &&& has_kind(g.base.buildings@, BuildingKind::ResearchTable) && !g.technologies[0].unlocked
        && affords(g.resources, Resources { wood: 5, stone: 5, food: 0 }) ==> {
        &&& f.resources == (Resources {
            wood: (g.resources.wood - 5) as i32,
            stone: (g.resources.stone - 5) as i32,
            ..g.resources
        })
        &&& f.technologies@ =~= g.technologies@.update(0, Technology { unlocked: true, ..g.technologies[0] })
        &&& f.base.size == g.base.size + 8
        &&& f.base.camera_x == clamp_axis(g.base.camera_x as int, base_extent(g.base.size + 8, g.base.zoom_level as int), 1000)
        &&& f.base.camera_y == clamp_axis(g.base.camera_y as int, base_extent(g.base.size + 8, g.base.zoom_level as int), 696)
        &&& f.message@ == "Unlocked Base Expansion I. Base expanded."@
        &&& f == (Game {
            resources: f.resources,
            technologies: f.technologies,
            base: BaseState {
                size: f.base.size,
                camera_x: f.base.camera_x,
                camera_y: f.base.camera_y,
                ..g.base
            },
            message: f.message,
            ..g
        })
    }
}

/// What going back makes of game `g`: quitting from the main menu, the main menu from the
/// base or the game-over screen, evacuating an expedition, and nothing on a loading screen.
pub open spec fn went_back(g: Game, f: Game) -> bool {
    &&& g.screen == Screen::MainMenu ==> f == (Game { should_quit: true, ..g })
    &&& g.screen == Screen::TransitionToBase || g.screen == Screen::TransitionToExpedition ==> f == g
    &&& g.screen == Screen::Base || g.screen == Screen::GameOver ==> f.message@ == "Select a menu option."@ && f == (Game {
        screen: Screen::MainMenu,
        message: f.message,
        ..g
    })
    &&& g.screen == Screen::Expedition ==> evacuated(g, f)
}

/// What typing `digit` makes of game `g`: the focused discard amount takes it as its
/// last digit (kept between zero and the stock) and any pending discard is dropped;
/// nothing without a focused amount.
pub open spec fn digit_typed(g: Game, f: Game, digit: i32) -> bool {
    &&& g.focused_storage_input is None ==> f == g
    &&& g.focused_storage_input matches Some(i) ==> f == (Game {
        storage_discard_inputs: f.storage_discard_inputs,
        pending_storage_discard: None,
        ..g
    }) && f.storage_discard_inputs@ == g.storage_discard_inputs@.update(
        i as int,
        clamp(g.storage_discard_inputs@[i as int] * 10 + digit, 0, material(g.resources, i as int)) as i32,
    )
}

/// What backspace makes of game `g`: the focused discard amount loses its last digit and
/// any pending discard is dropped; nothing without a focused amount.
pub open spec fn digit_erased(g: Game, f: Game) -> bool {
    &&& g.focused_storage_input is None ==> f == g
    &&& g.focused_storage_input matches Some(i) ==> f == (Game {
        storage_discard_inputs: f.storage_discard_inputs,
        pending_storage_discard: None,
        ..g
    }) && f.storage_discard_inputs@ == g.storage_discard_inputs@.update(i as int, tenth(g.storage_discard_inputs@[i as int] as int) as i32)
}

/// What adding `card` to the deck being prepared makes of game `g`: refused with a notice
/// when the deck is full, else the card goes last.
pub open spec fn prep_card_added(g: Game, f: Game, card: Card) -> bool {
    &&& g.prep_deck.len() >= MAX_PREP_CARDS ==> f.message@ == "The expedition deck is full."@ && f == (Game { message: f.message, ..g })
    &&& g.prep_deck.len() < MAX_PREP_CARDS ==> f.prep_deck@ == g.prep_deck@.push(card)
        && f.message@ == "Selected "@ + decimal(f.prep_deck.len() as int) + " card(s)."@
        && f == (Game { prep_deck: f.prep_deck, message: f.message, ..g })
}

/// What taking card `index` out of the deck being prepared makes of game `g`.
pub open spec fn prep_card_removed(g: Game, f: Game, index: usize) -> bool {
    &&& index >= g.prep_deck.len() ==> f == g
    &&& index < g.prep_deck.len() ==> f.prep_deck@ == g.prep_deck@.remove(index as int)
        && f.message@ == "Selected "@ + decimal(f.prep_deck.len() as int) + " card(s)."@
        && f == (Game { prep_deck: f.prep_deck, message: f.message, ..g })
}

/// What departing with `deck` makes of game `g`: refused with the reason when the
/// preparation is not ready, else the deck's food is paid and the loading screen starts.
pub open spec fn departed(g: Game, f: Game, deck: Seq<Card>) -> bool {
    &&& g.block_reason() matches Some(r) ==> f.message@ == block_text(r) && f == (Game { message: f.message, ..g })
    &&& g.block_reason() is None ==> f.message@ == "Departing for the expedition..."@
        && f.pending_expedition_deck@ == deck
        && f.prep_deck.len() == 0
        && f == (Game {
        resources: Resources { food: (g.resources.food - food_cost_of(deck)) as i32, ..g.resources },
        show_expedition_prep: false,
        pending_expedition_deck: f.pending_expedition_deck,
        prep_deck: f.prep_deck,
        transition_timer: 0,
        screen: Screen::TransitionToExpedition,
        message: f.message,
        ..g
    })
}

/// What placing the selected building on tile `(x, y)` makes of game `g`: refused with a
/// notice outside the base, on a taken tile or without the materials; otherwise the cost
/// is paid, the building stands there, a storehouse adds 10 to the capacity, and the
/// selection ends.
pub open spec fn building_placed(g: Game, f: Game, x: i32, y: i32) -> bool {
    &&& g.selected_building is None ==> f == g
    &&& g.selected_building matches Some(kind) ==> {
        let inside = 0 <= x < g.base.size && 0 <= y < g.base.size;
        let taken = occupied(g.base.buildings@, x as int, y as int);
        let cost = cost_of(kind);
        &&& !inside ==> f.message@ == "Cannot build outside the base."@ && f == (Game { message: f.message, ..g })
        &&& inside && taken ==> f.message@ == "That tile is already occupied."@ && f == (Game { message: f.message, ..g })
        &&& inside && !taken && !affords(g.resources, cost) ==> f.message@ == "Not enough resources to build."@
            && f == (Game { message: f.message, ..g })
        &&& inside && !taken && affords(g.resources, cost) ==> {
            &&& f.resources == (Resources {
                wood: (g.resources.wood - cost.wood) as i32,
                stone: (g.resources.stone - cost.stone) as i32,
                food: (g.resources.food - cost.food) as i32,
            })
            &&& f.base.buildings@ == g.base.buildings@.push(Building { kind, x, y, level: 1 })
            &&& f.base.storage_capacity == g.base.storage_capacity + if kind == BuildingKind::Campfire { 10int } else { 0 }
            &&& f.message@ == "Built "@ + display_name(kind) + "."@
            &&& f == (Game {
                resources: f.resources,
                base: BaseState { buildings: f.base.buildings, storage_capacity: f.base.storage_capacity, ..g.base },
                selected_building: None,
                message: f.message,
                ..g
            })
        }
    }
}

/// What panning the base view by `(dx, dy)` in a viewport of `vw` × `vh` makes of game
/// `g`: the camera moves, kept in range.
pub open spec fn base_panned(g: Game, f: Game, dx: int, dy: int, vw: int, vh: int) -> bool {
    &&& f.base.camera_x == clamp_axis(sat_add(g.base.camera_x as int, dx), base_extent(g.base.size as int, g.base.zoom_level as int), vw)
    &&& f.base.camera_y == clamp_axis(sat_add(g.base.camera_y as int, dy), base_extent(g.base.size as int, g.base.zoom_level as int), vh)
    &&& f == (Game { base: BaseState { camera_x: f.base.camera_x, camera_y: f.base.camera_y, ..g.base }, ..g })
}

/// What zooming the base view by `delta` levels makes of game `g`: the zoom stays within
/// 0 to 4; on a change the camera is kept in range and the new zoom is reported.
pub open spec fn base_zoomed(g: Game, f: Game, delta: int) -> bool {
    let next = clamp(g.base.zoom_level + delta, 0, 4);
    &&& next == g.base.zoom_level ==> f == g
    &&& next != g.base.zoom_level ==> {
        &&& f.base.zoom_level == next
        &&& f.base.camera_x == clamp_axis(g.base.camera_x as int, base_extent(g.base.size as int, next), 1000)
        &&& f.base.camera_y == clamp_axis(g.base.camera_y as int, base_extent(g.base.size as int, next), 696)
        &&& f.message@ == "Base zoom "@ + decimal(next + 1) + "x."@
        &&& f == (Game {
            base: BaseState {
                zoom_level: f.base.zoom_level,
                camera_x: f.base.camera_x,
                camera_y: f.base.camera_y,
                ..g.base
            },
            message: f.message,
            ..g
        })
    }
}

/// What zooming the expedition map by `delta` levels in a viewport of `vw` × `vh` makes of
/// game `g`: the zoom stays within 0 to 5; on a change the camera is kept in range and the
/// new zoom is reported.
pub open spec fn expedition_zoomed(g: Game, f: Game, delta: int, vw: int, vh: int) -> bool {
    &&& g.expedition is None ==> f == g
    &&& g.expedition matches Some(e) ==> {
        let next = clamp(e.zoom_level + delta, 0, 5);
        let z = ExpeditionState { zoom_level: next as usize, ..e };
        &&& next == e.zoom_level ==> f == g
        &&& next != e.zoom_level ==> {
            &&& f.expedition == Some(ExpeditionState {
                camera_x: clamp_axis(e.camera_x as int, z.content_size_spec().0, vw) as i32,
                camera_y: clamp_axis(e.camera_y as int, z.content_size_spec().1, vh) as i32,
                ..z
            })
            &&& f.message@ == "Expedition zoom "@ + decimal(next + 1) + "x."@
            &&& f == (Game { expedition: f.expedition, message: f.message, ..g })
        }
    }
}

/// What panning the expedition map by `(dx, dy)` in a viewport of `vw` × `vh` makes of
/// game `g`: the camera moves, kept in range.
pub open spec fn expedition_panned(g: Game, f: Game, dx: int, dy: int, vw: int, vh: int) -> bool {
    &&& g.expedition is None ==> f == g
    &&& g.expedition matches Some(e) ==> {
        &&& f.expedition == Some(ExpeditionState {
            camera_x: clamp_axis(sat_add(e.camera_x as int, dx), e.content_size_spec().0, vw) as i32,
            camera_y: clamp_axis(sat_add(e.camera_y as int, dy), e.content_size_spec().1, vh) as i32,
            ..e
        })
        &&& f == (Game { expedition: f.expedition, ..g })
    }
}

/// What evacuating makes of game `g`: without an expedition the base screen comes back
/// with a notice; with one, its cargo joins the stock and 3 food are eaten, or, with less
/// than 3 food in the stock, the campaign fails.
pub open spec fn evacuated(g: Game, f: Game) -> bool {
    &&& g.expedition is None ==> f.message@ == "No active expedition."@ && f == (Game {
        show_expedition_bag: false,
        screen: Screen::Base,
        message: f.message,
        ..g
    })
    &&& g.expedition matches Some(e) ==> {
        let r = stock_with(g.resources, e.cargo);
        let starved = r.food < 3;
        &&& f.message@ == evacuation_text(e.cargo, starved)
        &&& f.discovered_resources@ == discovered_after(g.discovered_resources@, r)
        &&& f == (Game {
            show_expedition_bag: false,
            expedition: None,
            resources: if starved { r } else { Resources { food: (r.food - 3) as i32, ..r } },
            discovered_resources: f.discovered_resources,
            screen: if starved { Screen::GameOver } else { Screen::Base },
            message: f.message,
            ..g
        })
    }
}

/// The stock can take the cargo of the expedition, if any, without leaving `i32`.
pub open spec fn cargo_fits(g: Game) -> bool {
    g.expedition matches Some(e) ==> crate::data::can_add(g.resources, e.cargo) && fits_i32(
        total_of(g.resources) + total_of(e.cargo),
    )
}

fn anyone_alive_exec(cs: &Vec<Character>) -> (b: bool)
    ensures
        b == anyone_alive(cs@),
{
    let mut i: usize = 0;
    while i < cs.len()
        invariant
            i <= cs.len(),
            forall|j: int| 0 <= j < i ==> !(#[trigger] cs@[j]).alive,
        decreases cs.len() - i,
    {
        if cs[i].alive {
            return true;
        }
        i = i + 1;
    }
    false
}

fn add_ms(timer: u64, dt: u64) -> (r: u64)
    ensures
        r == if timer + dt > u64::MAX { u64::MAX as int } else { timer + dt },
{
    if timer > u64::MAX - dt {
        u64::MAX
    } else {
        timer + dt
    }
}

impl Game {
    /// Enters the expedition prepared at departure.
    fn enter_expedition(&mut self)
        requires
            old(self).wf(),
        ensures
            final(self).wf(),
            final(self).expedition matches Some(e) && starts_expedition(e, old(self).pending_expedition_deck@),
            final(self).pending_expedition_deck.len() == 0,
            final(self).message@ == "Expedition started. Drag cards to play."@,
            *final(self) == (Game {
                expedition: final(self).expedition,
                pending_expedition_deck: final(self).pending_expedition_deck,
                screen: Screen::Expedition,
                show_expedition_bag: false,
                message: final(self).message,
                ..*old(self)
            }),
    {
        let mut deck: Vec<Card> = Vec::new();
        std::mem::swap(&mut deck, &mut self.pending_expedition_deck);
        let e = ExpeditionState::new(deck);
        proof {
            assert(e.content_size_spec().0 == 32 * 24);
        }
        self.expedition = Some(e);
        self.screen = Screen::Expedition;
        self.show_expedition_bag = false;
        self.say("Expedition started. Drag cards to play.");
    }

    /// Advances time by `dt_ms` milliseconds. A loading screen ends after 900 ms (new
    /// campaign) or 750 ms (expedition); elsewhere the campaign fails once every character
    /// is dead.
    pub fn update(&mut self, dt_ms: u64)
        requires
            old(self).wf(),
        ensures
            final(self).wf(),
            ({
                let t = if old(self).transition_timer + dt_ms > u64::MAX { u64::MAX as int } else { old(self).transition_timer + dt_ms };
                if old(self).screen == Screen::TransitionToBase {
                    if t >= 900 {
                        final(self).is_fresh_campaign() && final(self).screen == Screen::Base
                            && final(self).message@ == "New campaign started. B build, T research, E explore."@
                    } else {
                        *final(self) == (Game { transition_timer: t as u64, ..*old(self) })
                    }
                } else if old(self).screen == Screen::TransitionToExpedition {
                    if t >= 750 {
                        final(self).expedition matches Some(e) && starts_expedition(e, old(self).pending_expedition_deck@)
                            && final(self).pending_expedition_deck.len() == 0
                            && final(self).message@ == "Expedition started. Drag cards to play."@
                            && *final(self) == (Game {
                            expedition: final(self).expedition,
                            pending_expedition_deck: final(self).pending_expedition_deck,
                            screen: Screen::Expedition,
                            show_expedition_bag: false,
                            message: final(self).message,
                            transition_timer: t as u64,
                            ..*old(self)
                        })
                    } else {
                        *final(self) == (Game { transition_timer: t as u64, ..*old(self) })
                    }
                } else if anyone_alive(old(self).characters@) {
                    *final(self) == (Game { transition_timer: t as u64, ..*old(self) })
                } else {
                    final(self).message@ == "All characters are dead. Campaign failed."@ && *final(self) == (Game {
                        transition_timer: t as u64,
                        screen: Screen::GameOver,
                        message: final(self).message,
                        ..*old(self)
                    })
                }
            }),
    {
        if self.screen == Screen::TransitionToBase {
            self.transition_timer = add_ms(self.transition_timer, dt_ms);
            if self.transition_timer >= 900 {
                self.new_campaign();
            }
            return;
        }
        if self.screen == Screen::TransitionToExpedition {
            self.transition_timer = add_ms(self.transition_timer, dt_ms);
            if self.transition_timer >= 750 {
                self.enter_expedition();
            }
            return;
        }
        self.transition_timer = add_ms(self.transition_timer, dt_ms);
        if !anyone_alive_exec(&self.characters) {
            self.screen = Screen::GameOver;
            self.say("All characters are dead. Campaign failed.");
        }
    }

    /// Brings the expedition home: its cargo joins the stock, then 3 food are eaten; when
    /// less than 3 food remain the campaign fails instead.
    pub fn evacuate(&mut self)
        requires
            old(self).wf(),
            cargo_fits(*old(self)),
        ensures
            final(self).wf(),
            evacuated(*old(self), *final(self)),
    {
        self.show_expedition_bag = false;
        if let Some(expedition) = self.expedition.take() {
            self.resources.add(&expedition.cargo);
            self.refresh_discovered_resources();
            let starved = self.resources.food < 3;
            let mut m = String::from_str("Evacuated with ");
            append_int(&mut m, expedition.cargo.wood as i64);
            m.append(" wood, ");
            append_int(&mut m, expedition.cargo.stone as i64);
            m.append(" stone, ");
            append_int(&mut m, expedition.cargo.food as i64);
            if starved {
                m.append(" food, but food was below 3. Campaign failed.");
                self.screen = Screen::GameOver;
                self.message = m;
                return;
            }
            m.append(" food. Consumed 3 food.");
            self.resources.food = self.resources.food - 3;
            self.message = m;
        } else {
            self.say("No active expedition.");
        }
        self.screen = Screen::Base;
    }

    /// Escape: quits from the main menu, returns to it from the base or the game-over
    /// screen, evacuates from an expedition, and does nothing during a loading screen.
    pub fn back_or_quit(&mut self)
        requires
            old(self).wf(),
            old(self).screen == Screen::Expedition ==> cargo_fits(*old(self)),
        ensures
            final(self).wf(),
            went_back(*old(self), *final(self)),
    {
        match self.screen {
            Screen::MainMenu => self.should_quit = true,
            Screen::TransitionToBase => {},
            Screen::TransitionToExpedition => {},
            Screen::Base => {
                self.screen = Screen::MainMenu;
                self.say("Select a menu option.");
            },
            Screen::Expedition => self.evacuate(),
            Screen::GameOver => {
                self.screen = Screen::MainMenu;
                self.say("Select a menu option.");
            },
        }
    }
}

/// The message shown when the hand is empty.
pub open spec fn empty_hand_text() -> Seq<char> {
    "\u{624b}\u{724c}\u{4e3a}\u{7a7a}\u{ff0c}\u{8bf7}\u{7ed3}\u{675f}\u{56de}\u{5408}\u{3002}"@
}

/// Playing a non-movement card: its effect, then it goes to the discard pile, then the
/// enemies take their turns (see `ExpeditionState::move_enemies`).
pub open spec fn played(before: ExpeditionState, card: Card, after: ExpeditionState, msg: Seq<char>) -> bool {
    exists|mid: ExpeditionState|
        #[trigger] card_effect(before, card, mid, msg) && after == (ExpeditionState {
            map: after.map,
            discard: after.discard,
            ..mid
        }) && after.discard@ == mid.discard@.push(card) && enemies_moved(
            mid.map,
            after.map,
            mid.player_x as int,
            mid.player_y as int,
        ) && enemies_took_turns(ExpeditionState { discard: after.discard, ..mid }, after)
}

/// From `e` to `f` every enemy of `e`, in row order, took its turn (see
/// `ExpeditionState::move_enemies`).
pub open spec fn enemies_took_turns(e: ExpeditionState, f: ExpeditionState) -> bool {
    exists|list: Seq<(i32, i32)>| enemies_in_order(e.map, list) && #[trigger] turns(e, list, list.len(), move_steps(e), f)
}

/// What playing hand card `index` makes of game `g` (see `Game::play_hand_card`).
pub open spec fn hand_card_played(g: Game, f: Game, index: usize) -> bool {
    &&& g.expedition is None ==> f == g
    &&& g.expedition matches Some(e) ==> {
        let unchanged_but_message = f == (Game { message: f.message, ..g });
        if e.hand.len() == 0 {
            unchanged_but_message && f.message@ == empty_hand_text()
        } else if index >= e.hand.len() {
            f == g
        } else if e.pending_move_card.is_some() {
            unchanged_but_message && f.message@ == "Choose a move destination first."@
        } else if e.hand@[index as int].kind == CardKind::Gather && !crate::expedition::has_targets(
            e.map,
            crate::expedition::gather_cells(e.map, e.player_x as int, e.player_y as int),
        ) {
            unchanged_but_message && f.message@ == "No resources in gather range."@
        } else {
            let card = e.hand@[index as int];
            let rest = ExpeditionState { hand: f.expedition->0.hand, ..e };
            &&& f.expedition is Some
            &&& f.expedition->0.hand@ == e.hand@.remove(index as int)
            &&& f == (Game { expedition: f.expedition, message: f.message, ..g })
            &&& if card.kind == CardKind::Move {
                &&& f.expedition == Some(ExpeditionState { pending_move_card: Some(card), ..rest })
                &&& f.message@ == "Choose a highlighted destination."@
            } else {
                played(rest, card, f.expedition->0, f.message@)
            }
        }
    }
}

/// What moving hand card `from` to slot `to` makes of game `g`: the card leaves its
/// place and is put back at `to`, or last when `to` is past the end.
pub open spec fn hand_reordered(g: Game, f: Game, from: usize, to: usize) -> bool {
    &&& g.expedition is None ==> f == g
    &&& g.expedition matches Some(e) ==> {
        if from >= e.hand.len() {
            f == g
        } else {
            let rest = e.hand@.remove(from as int);
            let target = if to < rest.len() { to as int } else { rest.len() as int };
            &&& f.expedition == Some(ExpeditionState { hand: f.expedition->0.hand, ..e })
            &&& f.expedition->0.hand@ == rest.insert(target, e.hand@[from as int])
            &&& f.message@ == "Hand reordered."@
            &&& f == (Game { expedition: f.expedition, message: f.message, ..g })
        }
    }
}

/// What choosing `(x, y)` as the destination of a waiting movement card makes of game `g`.
pub open spec fn move_chosen(g: Game, f: Game, x: i32, y: i32) -> bool {
    &&& g.expedition is None ==> f == g
    &&& g.expedition matches Some(e) ==> match e.pending_move_card {
        None => f == g,
        Some(card) => {
            let ok = e.map.passable(x as int, y as int) && (x != e.player_x || y != e.player_y)
                && e.map.reach(e.player(), (x as int, y as int), if card.value > 0 { card.value as nat } else { 0 });
            &&& f == (Game { expedition: f.expedition, message: f.message, ..g })
            &&& !ok ==> f.expedition == Some(e) && f.message@ == "Choose a highlighted destination."@
            &&& ok ==> {
                let moved = ExpeditionState { player_x: x, player_y: y, pending_move_card: None, ..e };
                &&& f.message@ == "Moved."@
                &&& f.expedition matches Some(h) && h == (ExpeditionState {
                    map: h.map,
                    discard: h.discard,
                    ..moved
                }) && h.discard@ == e.discard@.push(card) && enemies_moved(e.map, h.map, x as int, y as int)
                    && enemies_took_turns(ExpeditionState { discard: h.discard, ..moved }, h)
            }
        },
    }
}

impl Game {
    /// Plays the hand card at `index` (see the contract for every refusal). A movement card
    /// waits for a destination; any other card takes effect, is discarded, and the enemies
    /// move.
    pub fn play_hand_card(&mut self, index: usize)
        requires
            old(self).wf(),
            old(self).expedition matches Some(e) ==> (index < e.hand.len() && e.pending_move_card is None && !(
            e.hand@[index as int].kind == CardKind::Gather && !crate::expedition::has_targets(
                e.map,
                crate::expedition::gather_cells(e.map, e.player_x as int, e.player_y as int),
            )) ==> card_fits(e, e.hand@[index as int])),
        ensures
            final(self).wf(),
            old(self).expedition matches Some(e) ==> final(self).expedition matches Some(f)
                && f.carried().to_multiset() == e.carried().to_multiset(),
            hand_card_played(*old(self), *final(self), index),
    {
        let msg: String;
        match self.expedition.as_mut() {
            None => {
                return;
            },
            Some(expedition) => {
                if expedition.hand.len() == 0 {
                    msg = String::from_str(
                        "\u{624b}\u{724c}\u{4e3a}\u{7a7a}\u{ff0c}\u{8bf7}\u{7ed3}\u{675f}\u{56de}\u{5408}\u{3002}",
                    );
                } else if index >= expedition.hand.len() {
                    return;
                } else if expedition.pending_move_card.is_some() {
                    msg = String::from_str("Choose a move destination first.");
                } else if expedition.hand[index].kind == CardKind::Gather && !expedition.has_gather_targets() {
                    msg = String::from_str("No resources in gather range.");
                } else {
                    let ghost e0 = *expedition;
                    let card = expedition.hand.remove(index);
                    proof {
                        let h = e0.hand@;
                        assert(h.to_multiset() =~= expedition.hand@.to_multiset().insert(card));
                        assert((e0.deck@ + expedition.hand@).to_multiset() =~= e0.deck@.to_multiset().add(expedition.hand@.to_multiset()));
                        assert((e0.deck@ + h).to_multiset() =~= e0.deck@.to_multiset().add(h.to_multiset()));
                        assert(e0.all_cards().to_multiset() =~= (e0.deck@ + h).to_multiset().add(e0.discard@.to_multiset()));
                        assert(expedition.all_cards().to_multiset() =~= (e0.deck@ + expedition.hand@).to_multiset().add(e0.discard@.to_multiset()));
                        assert(e0.all_cards().to_multiset() =~= expedition.all_cards().to_multiset().insert(card));
                    }
                    if card.kind == CardKind::Move {
                        expedition.pending_move_card = Some(card);
                        msg = String::from_str("Choose a highlighted destination.");
                    } else {
                        let ghost before = *expedition;
                        let text = expedition.apply_card(&card);
                        let ghost mid = *expedition;
                        expedition.discard.push(card);
                        expedition.move_enemies();
                        proof {
                            assert(card_effect(before, card, mid, text@));
                            let f = *expedition;
                            assert(f.deck@ + f.hand@ == before.deck@ + before.hand@);
                            assert(f.all_cards().to_multiset() =~= (f.deck@ + f.hand@).to_multiset().add(f.discard@.to_multiset()));
                            assert(before.all_cards().to_multiset() =~= (f.deck@ + f.hand@).to_multiset().add(before.discard@.to_multiset()));
                            assert(f.discard@.to_multiset() =~= before.discard@.to_multiset().insert(card));
                        }
                        msg = text;
                    }
                }
            },
        }
        self.message = msg;
    }

    /// Moves the hand card at `from` to position `to` (or the end, if `to` is past it).
    pub fn reorder_hand_card(&mut self, from: usize, to: usize)
        requires
            old(self).wf(),
        ensures
            final(self).wf(),
            old(self).expedition matches Some(e) ==> final(self).expedition matches Some(f)
                && f.carried().to_multiset() == e.carried().to_multiset(),
            hand_reordered(*old(self), *final(self), from, to),
    {
        let ghost e0 = self.expedition;
        match self.expedition.as_mut() {
            None => {
                return;
            },
            Some(expedition) => {
                if from >= expedition.hand.len() {
                    return;
                }
                let ghost h0 = expedition.hand@;
                let card = expedition.hand.remove(from);
                let target = if to < expedition.hand.len() { to } else { expedition.hand.len() };
                expedition.hand.insert(target, card);
                proof {
                    let e = e0->0;
                    assert(expedition.hand@.to_multiset() =~= h0.to_multiset());
                    lemma_same_cards_but_hand(e, *expedition);
                }
            },
        }
        self.say("Hand reordered.");
    }

    /// Completes a pending movement card at `(x, y)` if the card can reach it; otherwise the
    /// card stays pending and the player is asked again.
    pub fn choose_move_destination(&mut self, x: i32, y: i32)
        requires
            old(self).wf(),
        ensures
            final(self).wf(),
            old(self).expedition matches Some(e) ==> final(self).expedition matches Some(f)
                && f.carried().to_multiset() == e.carried().to_multiset(),
            move_chosen(*old(self), *final(self), x, y),
    {
        let msg: String;
        match self.expedition.as_mut() {
            None => {
                return;
            },
            Some(expedition) => {
                let Some(card) = expedition.pending_move_card.take() else {
                    return;
                };
                if !expedition.can_move_to(x, y, card.value) {
                    expedition.pending_move_card = Some(card);
                    msg = String::from_str("Choose a highlighted destination.");
                } else {
                    expedition.player_x = x;
                    expedition.player_y = y;
                    expedition.discard.push(card);
                    expedition.move_enemies();
                    msg = String::from_str("Moved.");
                }
            },
        }
        self.message = msg;
    }
}

/// An expedition that differs from another only in the order of its hand carries the same
/// cards.
pub proof fn lemma_same_cards_but_hand(e: ExpeditionState, f: ExpeditionState)
    requires
        f == (ExpeditionState { hand: f.hand, ..e }),
        f.hand@.to_multiset() == e.hand@.to_multiset(),
    ensures
        f.carried().to_multiset() == e.carried().to_multiset(),
{
    assert(f.all_cards().to_multiset() =~= (f.deck@ + f.hand@).to_multiset().add(f.discard@.to_multiset()));
    assert(e.all_cards().to_multiset() =~= (e.deck@ + e.hand@).to_multiset().add(e.discard@.to_multiset()));
    assert((f.deck@ + f.hand@).to_multiset() =~= f.deck@.to_multiset().add(f.hand@.to_multiset()));
    assert((e.deck@ + e.hand@).to_multiset() =~= e.deck@.to_multiset().add(e.hand@.to_multiset()));
}

/// Placing a building pays its price from the stock: a campfire 4 wood, a storehouse 4 wood
/// and 2 stone, a workbench 5 wood and 1 stone, a research table 5 wood and 3 stone, a
/// training dummy 3 wood and 1 food. It goes ahead on a free tile inside the base exactly
/// when the stock covers that price, and a refused placement costs nothing.
pub proof fn lemma_building_prices(g: Game, f: Game, x: i32, y: i32)
    requires
        building_placed(g, f, x, y),
        g.selected_building is Some,
    ensures
        ({
            let price: (int, int, int) = match g.selected_building->0 {
                BuildingKind::Campfire => (4, 0, 0),
                BuildingKind::Storehouse => (4, 2, 0),
                BuildingKind::Workbench => (5, 1, 0),
                BuildingKind::ResearchTable => (5, 3, 0),
                BuildingKind::TrainingDummy => (3, 0, 1),
            };
            let free = 0 <= x < g.base.size && 0 <= y < g.base.size && !occupied(g.base.buildings@, x as int, y as int);
            let covered = g.resources.wood >= price.0 && g.resources.stone >= price.1 && g.resources.food >= price.2;
            &&& (f.base.buildings.len() == g.base.buildings.len() + 1) == (free && covered)
            &&& free && covered ==> (g.resources.wood - f.resources.wood, g.resources.stone - f.resources.stone, g.resources.food
                - f.resources.food) == price
            &&& !(free && covered) ==> f.resources == g.resources && f.base.buildings == g.base.buildings
        }),
{
}

/// Placing a building keeps every building inside the base and on a tile of its own: the
/// buildings stay as they were or gain one new building of level 1 at `(x, y)`, and the
/// base keeps its size.
pub proof fn lemma_placement_keeps_layout(g: Game, f: Game, x: i32, y: i32)
    requires
        buildings_placed(g.base.buildings@, g.base.size as int),
        building_placed(g, f, x, y),
    ensures
        buildings_placed(f.base.buildings@, f.base.size as int),
        f.base.size == g.base.size,
        f.base.buildings@ == g.base.buildings@ || exists|k: BuildingKind|
            f.base.buildings@ == #[trigger] g.base.buildings@.push(Building { kind: k, x, y, level: 1 }),
{
    if let Some(kind) = g.selected_building {
        let inside = 0 <= x < g.base.size && 0 <= y < g.base.size;
        let taken = occupied(g.base.buildings@, x as int, y as int);
        if inside && !taken && affords(g.resources, cost_of(kind)) {
            let bs = g.base.buildings@;
            let nb = f.base.buildings@;
            assert(nb == bs.push(Building { kind, x, y, level: 1 }));
            assert forall|i: int, j: int| 0 <= i < j < nb.len() implies !(#[trigger] nb[i].x == #[trigger] nb[j].x
                && nb[i].y == nb[j].y) by {
                if j == bs.len() {
                    if nb[i].x == x && nb[i].y == y {
                        assert(bs[i].x == x && bs[i].y == y);
                        assert(occupied(bs, x as int, y as int));
                    }
                } else {
                    assert(nb[i] == bs[i] && nb[j] == bs[j]);
                }
            }
            assert forall|i: int| 0 <= i < nb.len() implies 0 <= #[trigger] nb[i].x < f.base.size && 0 <= nb[i].y < f.base.size by {
                if i < bs.len() {
                    assert(nb[i] == bs[i]);
                }
            }
        }
    }
}

/// Researching twice in a row grows the base by at most 8 tiles a side: the second
/// research changes neither the base size, the stock nor the technologies.
pub proof fn lemma_research_twice(g0: Game, g1: Game, g2: Game)
    requires
        g0.technologies.len() >= 1,
        researched(g0, g1),
        researched(g1, g2),
    ensures
        g2.base.size <= g0.base.size + 8,
        g2.base.size == g1.base.size,
        g2.resources == g1.resources,
        g2.technologies == g1.technologies,
{
    let cost = Resources { wood: 5, stone: 5, food: 0 };
    if has_kind(g0.base.buildings@, BuildingKind::ResearchTable) && !g0.technologies[0].unlocked && affords(g0.resources, cost) {
        assert(g1.technologies@[0] == Technology { unlocked: true, ..g0.technologies[0] });
        assert(g1.technologies[0].unlocked);
    } else {
        assert(g1 == (Game { message: g1.message, ..g0 }));
    }
}

/// The base zoom level of a saved game that does not record one.
pub fn default_base_zoom() -> (z: usize)
    ensures
        z == 1,
{
    1
}

/// The storage capacity of a saved game that does not record one.
pub fn default_storage_capacity() -> (c: i32)
    ensures
        c == 10,
{
    10
}

/// The discard amounts of a saved game that does not record them: all zero.
pub fn default_storage_discard_inputs() -> (v: [i32; 3])
    ensures
        v@ == seq![0i32, 0, 0],
{
    let v: [i32; 3] = [0, 0, 0];
    assert(v@ =~= seq![0i32, 0, 0]);
    v
}

/// The discovered materials of a saved game that does not record them: food only.
pub fn default_discovered_resources() -> (v: [bool; 3])
    ensures
        v@ == seq![false, false, true],
{
    let v: [bool; 3] = [false, false, true];
    assert(v@ =~= seq![false, false, true]);
    v
}

/// The map zoom level of a saved expedition that does not record one.
pub fn default_expedition_zoom() -> (z: usize)
    ensures
        z == 3,
{
    3
}

/// How far enemies move per turn in a saved expedition that does not record it.
pub fn default_enemy_move_speed() -> (s: i32)
    ensures
        s == 1,
{
    1
}

/// How close the player must come to alert enemies, in a saved expedition that does not
/// record it.
pub fn default_enemy_alert_range() -> (r: i32)
    ensures
        r == 6,
{
    6
}

} // verus!
