use vstd::prelude::*;

verus! {

/// The systems a schedule can run.
#[derive(Clone, Copy, Debug, PartialEq, Eq, Structural)]
pub enum SystemId {
    Visibility,
    MonsterAi,
    MapIndexing,
    MeleeCombat,
    Damage,
    Inventory,
    ItemUse,
    ItemDrop,
    ItemRemove,
    DeleteTheDead,
    PlayerMove,
    GetItem,
}

} // verus!

verus! {

/// Ordered groups of systems; every group ends at a flush, where the
/// commands its systems recorded are applied, in group order, before the
/// next group runs.
pub struct Schedule {
    pub groups: Vec<Vec<SystemId>>,
}

impl Schedule {
    pub open spec fn spec_groups(&self) -> Seq<Seq<SystemId>> {
        self.groups@.map_values(|g: Vec<SystemId>| g@)
    }
}

pub struct PlayerSchedules {
    pub player_move: Schedule,
    pub get_item: Schedule,
}

pub struct Schedules {
    pub main: Schedule,
    pub delete_the_dead: Schedule,
    pub player: PlayerSchedules,
}

/// The turn-resolution pipeline, one system per group.
pub open spec fn main_pipeline() -> Seq<Seq<SystemId>> {
    seq![
        seq![SystemId::Visibility, SystemId::MonsterAi],
        seq![SystemId::MapIndexing],
        seq![SystemId::MeleeCombat],
        seq![SystemId::Damage],
        seq![SystemId::Inventory],
        seq![SystemId::ItemUse],
        seq![SystemId::ItemDrop],
        seq![SystemId::ItemRemove],
    ]
}

fn group(first: SystemId, second: Option<SystemId>) -> (r: Vec<SystemId>)
    ensures
        second is None ==> r@ == seq![first],
        second matches Some(s) ==> r@ == seq![first, s],
{
    let mut r: Vec<SystemId> = Vec::new();
    r.push(first);
    if let Some(s) = second {
        r.push(s);
    }
    proof {
        if second is None {
            assert(r@ =~= seq![first]);
        } else {
            assert(r@ =~= seq![first, second.unwrap()]);
        }
    }
    r
}

/// A schedule of one system followed by a flush.
pub fn schedule(system: SystemId) -> (r: Schedule)
    ensures
        r.spec_groups() == seq![seq![system]],
{
    let mut groups: Vec<Vec<SystemId>> = Vec::new();
    groups.push(group(system, None));
    let r = Schedule { groups };
    assert(r.spec_groups() =~= seq![seq![system]]);
    r
}

pub fn build_schedules() -> (r: Schedules)
    ensures
        r.main.spec_groups() == main_pipeline(),
        r.delete_the_dead.spec_groups() == seq![seq![SystemId::DeleteTheDead]],
        r.player.player_move.spec_groups() == seq![seq![SystemId::PlayerMove]],
        r.player.get_item.spec_groups() == seq![seq![SystemId::GetItem]],
{
    let mut groups: Vec<Vec<SystemId>> = Vec::new();
    groups.push(group(SystemId::Visibility, Some(SystemId::MonsterAi)));
    groups.push(group(SystemId::MapIndexing, None));
    groups.push(group(SystemId::MeleeCombat, None));
    groups.push(group(SystemId::Damage, None));
    groups.push(group(SystemId::Inventory, None));
    groups.push(group(SystemId::ItemUse, None));
    groups.push(group(SystemId::ItemDrop, None));
    groups.push(group(SystemId::ItemRemove, None));
    let main = Schedule { groups };
    assert(main.spec_groups() =~= main_pipeline());
    Schedules {
        main,
        delete_the_dead: schedule(SystemId::DeleteTheDead),
        player: PlayerSchedules {
            player_move: schedule(SystemId::PlayerMove),
            get_item: schedule(SystemId::GetItem),
        },
    }
}

} // verus!
