use vstd::prelude::*;
use crate::entity::Entity;

verus! {

#[derive(Clone, Copy, Debug, PartialEq, Eq, Structural)]
pub enum MainMenuSelection {
    NewGame,
    LoadGame,
    Quit,
}

/// The turn phase: which pipeline, if any, runs this tick.
#[derive(Clone, Copy, Debug, PartialEq, Eq, Structural)]
pub enum RunState {
    AwaitingInput,
    PreRun,
    PlayerTurn,
    MonsterTurn,
    ShowInventory,
    ShowDropItem,
    ShowTargeting { range: i32, item: Entity },
    MainMenu { menu_selection: MainMenuSelection },
    SaveGame,
    NextLevel,
    ShowRemoveItem,
    GameOver,
}

} // verus!

verus! {

/// What the input classifier made of this tick's input while idle.
#[derive(Clone, Copy, Debug, PartialEq, Eq, Structural)]
pub enum Intent {
    Move { dx: i32, dy: i32 },
    PickUp,
    OpenInventory,
    OpenDrop,
    OpenRemove,
    Save,
    Wait,
    Descend,
    Unknown,
}

/// The outcome of an item menu.
#[derive(Clone, Copy, Debug, PartialEq, Eq, Structural)]
pub enum ItemMenuResult {
    NoResponse,
    Cancel,
    Selected(Entity),
}

/// The outcome of choosing a target point.
#[derive(Clone, Copy, Debug, PartialEq, Eq, Structural)]
pub enum TargetResult {
    NoResponse,
    Cancel,
    Selected(i32, i32),
}

/// The outcome of the main menu.
#[derive(Clone, Copy, Debug, PartialEq, Eq, Structural)]
pub enum MainMenuResult {
    NoSelection { selected: MainMenuSelection },
    Selected { selected: MainMenuSelection },
}

/// One tick's classified input.
#[derive(Clone, Copy, Debug, PartialEq, Eq, Structural)]
pub enum Event {
    /// A key while idle; `None` when no key was pressed.
    Key(Option<Intent>),
    ItemMenu(ItemMenuResult),
    Target(TargetResult),
    MainMenu(MainMenuResult),
    /// The game-over screen; true when the player asks to go back to the menu.
    GameOver(bool),
}

/// The next turn phase. `ranged` is the range of the item a menu selected,
/// if it is used at a distance; `on_stairs` tells whether the player stands
/// on a way down.
pub open spec fn next_state(s: RunState, ev: Event, ranged: Option<i32>, on_stairs: bool) -> RunState {
    match s {
        RunState::PreRun => RunState::AwaitingInput,
        RunState::PlayerTurn => RunState::MonsterTurn,
        RunState::MonsterTurn => RunState::AwaitingInput,
        RunState::AwaitingInput => match ev {
            Event::Key(Some(i)) => match i {
                Intent::Move { .. } | Intent::PickUp | Intent::Wait => RunState::PlayerTurn,
                Intent::OpenInventory => RunState::ShowInventory,
                Intent::OpenDrop => RunState::ShowDropItem,
                Intent::OpenRemove => RunState::ShowRemoveItem,
                Intent::Save => RunState::SaveGame,
                Intent::Descend => if on_stairs {
                    RunState::NextLevel
                } else {
                    RunState::PlayerTurn
                },
                Intent::Unknown => RunState::AwaitingInput,
            },
            _ => RunState::AwaitingInput,
        },
        RunState::ShowInventory => match ev {
            Event::ItemMenu(ItemMenuResult::Cancel) => RunState::AwaitingInput,
            Event::ItemMenu(ItemMenuResult::Selected(item)) => match ranged {
                Some(range) => RunState::ShowTargeting { range, item },
                None => RunState::PlayerTurn,
            },
            _ => s,
        },
        RunState::ShowDropItem | RunState::ShowRemoveItem => match ev {
            Event::ItemMenu(ItemMenuResult::Cancel) => RunState::AwaitingInput,
            Event::ItemMenu(ItemMenuResult::Selected(_)) => RunState::PlayerTurn,
            _ => s,
        },
        RunState::ShowTargeting { .. } => match ev {
            Event::Target(TargetResult::Cancel) => RunState::AwaitingInput,
            Event::Target(TargetResult::Selected(_, _)) => RunState::PlayerTurn,
            _ => s,
        },
        RunState::MainMenu { .. } => match ev {
            Event::MainMenu(MainMenuResult::NoSelection { selected }) => RunState::MainMenu {
                menu_selection: selected,
            },
            Event::MainMenu(MainMenuResult::Selected { selected }) => match selected {
                MainMenuSelection::NewGame => RunState::PreRun,
                MainMenuSelection::LoadGame => RunState::AwaitingInput,
                MainMenuSelection::Quit => s,
            },
            _ => s,
        },
        RunState::SaveGame => RunState::MainMenu { menu_selection: MainMenuSelection::LoadGame },
        RunState::NextLevel => RunState::PreRun,
        RunState::GameOver => match ev {
            Event::GameOver(true) => RunState::MainMenu { menu_selection: MainMenuSelection::NewGame },
            _ => s,
        },
    }
}

/// The turn state machine: a total function of the current phase and the
/// classified input.
pub fn transition(s: RunState, ev: Event, ranged: Option<i32>, on_stairs: bool) -> (r: RunState)
    ensures
        r == next_state(s, ev, ranged, on_stairs),
        s == RunState::AwaitingInput && ev == Event::Key(Some(Intent::Unknown)) ==> r == RunState::AwaitingInput,
{
    match s {
        RunState::PreRun => RunState::AwaitingInput,
        RunState::PlayerTurn => RunState::MonsterTurn,
        RunState::MonsterTurn => RunState::AwaitingInput,
        RunState::AwaitingInput => match ev {
            Event::Key(Some(i)) => match i {
                Intent::Move { .. } | Intent::PickUp | Intent::Wait => RunState::PlayerTurn,
                Intent::OpenInventory => RunState::ShowInventory,
                Intent::OpenDrop => RunState::ShowDropItem,
                Intent::OpenRemove => RunState::ShowRemoveItem,
                Intent::Save => RunState::SaveGame,
                Intent::Descend => if on_stairs {
                    RunState::NextLevel
                } else {
                    RunState::PlayerTurn
                },
                Intent::Unknown => RunState::AwaitingInput,
            },
            _ => RunState::AwaitingInput,
        },
        RunState::ShowInventory => match ev {
            Event::ItemMenu(ItemMenuResult::Cancel) => RunState::AwaitingInput,
            Event::ItemMenu(ItemMenuResult::Selected(item)) => match ranged {
                Some(range) => RunState::ShowTargeting { range, item },
                None => RunState::PlayerTurn,
            },
            _ => s,
        },
        RunState::ShowDropItem | RunState::ShowRemoveItem => match ev {
            Event::ItemMenu(ItemMenuResult::Cancel) => RunState::AwaitingInput,
            Event::ItemMenu(ItemMenuResult::Selected(_)) => RunState::PlayerTurn,
            _ => s,
        },
        RunState::ShowTargeting { .. } => match ev {
            Event::Target(TargetResult::Cancel) => RunState::AwaitingInput,
            Event::Target(TargetResult::Selected(_, _)) => RunState::PlayerTurn,
            _ => s,
        },
        RunState::MainMenu { .. } => match ev {
            Event::MainMenu(MainMenuResult::NoSelection { selected }) => RunState::MainMenu {
                menu_selection: selected,
            },
            Event::MainMenu(MainMenuResult::Selected { selected }) => match selected {
                MainMenuSelection::NewGame => RunState::PreRun,
                MainMenuSelection::LoadGame => RunState::AwaitingInput,
                MainMenuSelection::Quit => s,
            },
            _ => s,
        },
        RunState::SaveGame => RunState::MainMenu { menu_selection: MainMenuSelection::LoadGame },
        RunState::NextLevel => RunState::PreRun,
        RunState::GameOver => match ev {
            Event::GameOver(true) => RunState::MainMenu { menu_selection: MainMenuSelection::NewGame },
            _ => s,
        },
    }
}

} // verus!
