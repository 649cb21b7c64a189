use vstd::prelude::*;

verus! {

/// One narrated event. The text shown to the player is rendered from it.
#[derive(Clone, Debug)]
pub enum LogEntry {
    Welcome,
    Hit { attacker: String, target: String, damage: i32 },
    UnableToHurt { attacker: String, target: String },
    Dead { name: String },
    PickedUp { item: String },
    NothingToPickUp,
    Dropped { item: String },
    Healed { item: String, amount: i32 },
    Inflicted { item: String, target: String, amount: i32 },
    Confused { item: String, target: String },
    Unequipped { item: String },
    Equipped { item: String },
    Descended,
    NoWayDown,
}

/// The append-only game log.
pub struct GameLog {
    pub entries: Vec<LogEntry>,
}

impl GameLog {
    pub fn new() -> (r: GameLog)
        ensures
            r.entries@ == seq![LogEntry::Welcome],
    {
        let mut entries: Vec<LogEntry> = Vec::new();
        entries.push(LogEntry::Welcome);
        GameLog { entries }
    }

    pub fn push(&mut self, e: LogEntry)
        ensures
            final(self).entries@ == old(self).entries@.push(e),
    {
        self.entries.push(e);
    }
}

} // verus!
