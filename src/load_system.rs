use vstd::prelude::*;
use crate::command::{apply_all, lemma_next_id_bound, Command};
use crate::components::Point;
use crate::entity::{holder_resolves, restored_holder, stored_holder, Entity, EntityHolder, KeyMap, LoadError};
use crate::record::Components;
use crate::map::GameMap;
use crate::save_system::{persist_pred, persisted, SaveData, SavedEntity};
use crate::snapshot::{all_holders, equiv, map_holders, resolves_fn, restore_fn, store_fn};
use crate::world::{World, WorldModel};

verus! {

/// The mapping from each snapshot key to the entity spawned for it: the
/// i-th saved entity becomes identity `base + i`.
pub open spec fn key_map(sd: Seq<SavedEntity>, base: nat) -> Map<u64, Entity>
    decreases sd.len(),
{
    if sd.len() == 0 {
        Map::empty()
    } else {
        key_map(sd.drop_last(), base).insert(
            sd.last().key,
            Entity { id: (base + sd.len() - 1) as u64 },
        )
    }
}

pub open spec fn keys_unique(sd: Seq<SavedEntity>) -> bool {
    forall|i: int, j: int| 0 <= i < j < sd.len() ==> (#[trigger] sd[i]).key != (#[trigger] sd[j]).key
}

/// Whether every reference in the snapshot names a key of the snapshot.
pub open spec fn refs_resolve(sd: Seq<SavedEntity>, keys: Map<u64, Entity>) -> bool {
    forall|i: int| 0 <= i < sd.len() ==> all_holders((#[trigger] sd[i]).components, resolves_fn(keys))
}

pub open spec fn delete_cmd() -> spec_fn(Entity) -> Command {
    |e: Entity| Command::Delete(e)
}

pub open spec fn spawn_cmd(keys: Map<u64, Entity>) -> spec_fn(SavedEntity) -> Command {
    |s: SavedEntity| Command::Spawn(map_holders(s.components, restore_fn(keys)))
}

/// A load: every persisted entity is deleted, then one entity is spawned
/// per saved entity, with its references resolved.
pub open spec fn load_cmds(m: WorldModel, sd: Seq<SavedEntity>) -> Seq<Command> {
    persisted(m).map_values(delete_cmd()) + sd.map_values(spawn_cmd(key_map(sd, m.next_id)))
}

pub proof fn lemma_key_map(sd: Seq<SavedEntity>, base: nat)
    requires
        base + sd.len() <= u64::MAX + 1,
    ensures
        forall|k: u64| #[trigger] key_map(sd, base).contains_key(k) <==> (exists|j: int|
            0 <= j < sd.len() && (#[trigger] sd[j]).key == k),
        keys_unique(sd) ==> (forall|j: int|
            0 <= j < sd.len() ==> key_map(sd, base)[(#[trigger] sd[j]).key] == (Entity {
                id: (base + j) as u64,
            })),
    decreases sd.len(),
{
    if sd.len() > 0 {
        let p = sd.drop_last();
        lemma_key_map(p, base);
        assert forall|k: u64| #[trigger] key_map(sd, base).contains_key(k) <==> exists|j: int|
            0 <= j < sd.len() && (#[trigger] sd[j]).key == k by {
            if key_map(sd, base).contains_key(k) && k != sd.last().key {
                assert(key_map(p, base).contains_key(k));
                let j = choose|j: int| 0 <= j < p.len() && (#[trigger] p[j]).key == k;
                assert(sd[j] == p[j]);
            }
            if exists|j: int| 0 <= j < sd.len() && (#[trigger] sd[j]).key == k {
                let j = choose|j: int| 0 <= j < sd.len() && (#[trigger] sd[j]).key == k;
                if j < p.len() {
                    assert(p[j] == sd[j]);
                    assert(key_map(p, base).contains_key(k));
                }
            }
        }
        if keys_unique(sd) {
            assert(keys_unique(p)) by {
                assert forall|i: int, j: int| 0 <= i < j < p.len() implies (#[trigger] p[i]).key != (
                #[trigger] p[j]).key by {
                    assert(p[i] == sd[i] && p[j] == sd[j]);
                }
            }
            assert forall|j: int| 0 <= j < sd.len() implies key_map(sd, base)[(#[trigger] sd[j]).key]
                == Entity { id: (base + j) as u64 } by {
                if j < p.len() {
                    assert(p[j] == sd[j]);
                    assert(sd[j].key != sd[sd.len() - 1].key);
                }
            }
        }
    }
}

/// The entities tagged for persistence, in spawn order.
pub fn persisted_entities(world: &World) -> (r: Vec<Entity>)
    requires
        world.wf(),
    ensures
        r@ == persisted(world@),
{
    let ghost m = world@;
    let ghost pred = persist_pred(m);
    proof {
        world.lemma_inv();
    }
    let es = world.entities();
    let mut out: Vec<Entity> = Vec::new();
    let mut i: usize = 0;
    while i < es.len()
        invariant
            world.wf(),
            m == world@,
            m.inv(),
            es@ == m.entities,
            i <= es@.len(),
            pred == persist_pred(m),
            out@ == es@.take(i as int).filter(pred),
        decreases es.len() - i,
    {
        let e = es[i];
        proof {
            assert(m.entities.contains(e));
            assert(es@.take(i as int + 1) =~= es@.take(i as int).push(e));
            es@.take(i as int).lemma_filter_push(e, pred);
        }
        if world.get(e).unwrap().tags.serialize_me {
            out.push(e);
        }
        i = i + 1;
    }
    proof {
        assert(es@.take(i as int) =~= es@);
    }
    out
}

/// Checks a snapshot and builds its key mapping: fails on a key given twice
/// or on a reference to a key the snapshot does not define.
fn check_snapshot(sd: &Vec<SavedEntity>, base: u64) -> (r: Result<KeyMap, LoadError>)
    requires
        base + sd@.len() <= u64::MAX,
    ensures
        r is Ok <==> keys_unique(sd@) && refs_resolve(sd@, key_map(sd@, base as nat)),
        r matches Ok(km) ==> km@ == key_map(sd@, base as nat),
        r matches Err(LoadError::DuplicateKey(k)) ==> !keys_unique(sd@),
        r matches Err(e) ==> !(e is MalformedMap),
        r matches Err(LoadError::UnresolvedKey(k)) ==> keys_unique(sd@) && !key_map(
            sd@,
            base as nat,
        ).contains_key(k),
{
    let mut km = KeyMap::new();
    let mut i: usize = 0;
    while i < sd.len()
        invariant
            base + sd@.len() <= u64::MAX,
            i <= sd@.len(),
            keys_unique(sd@.take(i as int)),
            km@ == key_map(sd@.take(i as int), base as nat),
        decreases sd.len() - i,
    {
        let k = sd[i].key;
        proof {
            lemma_key_map(sd@.take(i as int), base as nat);
            assert(sd@.take(i as int + 1).drop_last() =~= sd@.take(i as int));
        }
        if km.contains(k) {
            proof {
                let j = choose|j: int| 0 <= j < i && (#[trigger] sd@.take(i as int)[j]).key == k;
                assert(sd@[j] == sd@.take(i as int)[j]);
            }
            return Err(LoadError::DuplicateKey(k));
        }
        km.insert(k, Entity { id: base + i as u64 });
        i = i + 1;
        proof {
            assert forall|a: int, b: int| 0 <= a < b < i implies (#[trigger] sd@.take(i as int)[a]).key
                != (#[trigger] sd@.take(i as int)[b]).key by {
                if b == i - 1 {
                    assert(sd@.take(i as int - 1).contains(sd@[a]) ==> true);
                    if sd@[a].key == k {
                        assert(sd@.take(i as int - 1)[a].key == k);
                        assert(key_map(sd@.take(i as int - 1), base as nat).contains_key(k));
                    }
                } else {
                    assert(sd@.take(i as int - 1)[a] == sd@[a]);
                    assert(sd@.take(i as int - 1)[b] == sd@[b]);
                }
            }
        }
    }
    proof {
        assert(sd@.take(i as int) =~= sd@);
    }
    let mut j: usize = 0;
    while j < sd.len()
        invariant
            i == sd@.len(),
            j <= sd@.len(),
            keys_unique(sd@),
            km@ == key_map(sd@, base as nat),
            forall|a: int| 0 <= a < j ==> all_holders((#[trigger] sd@[a]).components, resolves_fn(km@)),
        decreases sd.len() - j,
    {
        if !sd[j].components.references_resolve(&km) {
            let e = sd[j].components.unresolved_key(&km);
            return Err(e);
        }
        j = j + 1;
    }
    Ok(km)
}

/// Replaces the persisted part of the world with a snapshot's content:
/// every persisted entity is deleted, one fresh entity is spawned per saved
/// entity, and every reference is resolved to the entity spawned for its
/// key. Nothing changes when the snapshot is corrupt: a key given twice, or
/// a reference to a key it does not define. On success the snapshot's map
/// comes back with an empty occupancy index.
pub fn load_components(world: &mut World, sd: SaveData) -> (r: Result<GameMap, LoadError>)
    requires
        old(world).wf(),
        old(world)@.next_id + persisted(old(world)@).len() + sd.entities@.len() < u64::MAX,
    ensures
        final(world).wf(),
        r is Ok <==> keys_unique(sd.entities@) && refs_resolve(
            sd.entities@,
            key_map(sd.entities@, old(world)@.next_id),
        ),
        r is Err ==> final(world)@ == old(world)@,
        r matches Err(e) ==> !(e is MalformedMap),
        r is Ok ==> final(world)@ == apply_all(old(world)@, load_cmds(old(world)@, sd.entities@)),
        r matches Ok(map) ==> map.tiles@ == sd.map.tiles@ && map.rooms@ == sd.map.rooms@ && map.width
            == sd.map.width && map.height == sd.map.height && map.depth == sd.map.depth
            && map.revealed_tiles@ == sd.map.revealed_tiles@ && map.visible_tiles@ == sd.map.visible_tiles@
            && map.blocked@ == sd.map.blocked@ && map.tile_content@.len() == sd.map.tiles@.len()
            && (forall|i: int| 0 <= i < map.tile_content@.len() ==> (#[trigger] map.tile_content@[i])@.len() == 0),
{
    let ghost m = world@;
    let base = world.next_id();
    let km = match check_snapshot(&sd.entities, base) {
        Ok(km) => km,
        Err(e) => return Err(e),
    };
    let ghost all = sd.entities@;
    let ghost keys = key_map(all, m.next_id);
    let doomed = persisted_entities(world);
    let ghost dels = doomed@.map_values(delete_cmd());
    let mut i: usize = 0;
    while i < doomed.len()
        invariant
            world.wf(),
            i <= doomed@.len(),
            doomed@ == persisted(m),
            dels == doomed@.map_values(delete_cmd()),
            world@ == apply_all(m, dels.take(i as int)),
            world@.next_id == m.next_id,
        decreases doomed.len() - i,
    {
        proof {
            assert(dels.take(i as int + 1).drop_last() =~= dels.take(i as int));
        }
        world.delete(doomed[i]);
        i = i + 1;
    }
    proof {
        assert(dels.take(i as int) =~= dels);
    }
    let ghost spawns = all.map_values(spawn_cmd(keys));
    let n = sd.entities.len();
    let mut rest = sd.entities;
    let mut k: usize = 0;
    while rest.len() > 0
        invariant
            world.wf(),
            k <= all.len(),
            rest@ == all.skip(k as int),
            all.len() == n,
            keys == key_map(all, m.next_id),
            km@ == keys,
            refs_resolve(all, keys),
            spawns == all.map_values(spawn_cmd(keys)),
            world@ == apply_all(m, dels + spawns.take(k as int)),
            world@.next_id == m.next_id + k,
            m.next_id + persisted(m).len() + all.len() < u64::MAX,
        decreases rest@.len(),
    {
        proof {
            assert(rest@.len() == all.len() - k);
        }
        let mut s = rest.remove(0);
        proof {
            assert(s == all[k as int]);
            assert((dels + spawns.take(k as int + 1)).drop_last() =~= dels + spawns.take(k as int));
        }
        let _ = s.components.restore_entities(&km);
        world.spawn(s.components);
        k = k + 1;
        proof {
            assert(rest@ =~= all.skip(k as int));
        }
    }
    proof {
        assert(spawns.take(k as int) =~= spawns);
    }
    let mut map = sd.map;
    let mut content: Vec<Vec<Entity>> = Vec::new();
    let mut t: usize = 0;
    while t < map.tiles.len()
        invariant
            t <= map.tiles@.len(),
            content@.len() == t,
            forall|i: int| 0 <= i < t ==> (#[trigger] content@[i])@.len() == 0,
        decreases map.tiles.len() - t,
    {
        content.push(Vec::new());
        t = t + 1;
    }
    map.tile_content = content;
    Ok(map)
}

/// The player's entity and position, found by its marker and position
/// rather than by a stored identity; the last such entity wins.
pub fn write_player_resource(world: &World) -> (r: Option<(Entity, Point)>)
    requires
        world.wf(),
    ensures
        r matches Some((e, p)) ==> world@.alive(e) && world@.data[e].player is Some
            && world@.data[e].position == Some(crate::components::Position { x: p.x, y: p.y }),
        r is None ==> forall|e: Entity| #[trigger] world@.alive(e) ==> world@.data[e].player is None
            || world@.data[e].position is None,
{
    let ghost m = world@;
    proof {
        world.lemma_inv();
    }
    let es = world.entities();
    let mut found: Option<(Entity, Point)> = None;
    let mut i: usize = 0;
    while i < es.len()
        invariant
            world.wf(),
            m == world@,
            m.inv(),
            es@ == m.entities,
            i <= es@.len(),
            found matches Some((e, p)) ==> m.alive(e) && m.data[e].player is Some
                && m.data[e].position == Some(crate::components::Position { x: p.x, y: p.y }),
            found is None ==> forall|j: int|
                0 <= j < i ==> (#[trigger] m.data[es@[j]]).player is None || m.data[es@[j]].position is None,
        decreases es.len() - i,
    {
        let e = es[i];
        proof {
            assert(m.entities.contains(e));
        }
        let c = world.get(e).unwrap();
        if let (Some(_), Some(pos)) = (c.player, c.position) {
            found = Some((e, Point::new(pos.x, pos.y)));
        }
        i = i + 1;
    }
    proof {
        if found is None {
            assert forall|e: Entity| #[trigger] m.alive(e) implies m.data[e].player is None
                || m.data[e].position is None by {
                let j = m.entities.index_of(e);
                assert(m.entities.contains(e));
                assert(es@[j] == e);
            }
        }
    }
    found
}

} // verus!

verus! {

/// The identity the `j`-th spawn receives after `base`.
pub open spec fn spawned_entity(base: nat, j: int) -> Entity {
    Entity { id: (base + j) as u64 }
}

/// Commands that spawn nothing keep the next identity.
proof fn lemma_deletes_keep_next_id(m: WorldModel, es: Seq<Entity>)
    requires
        m.next_id + es.len() <= u64::MAX,
    ensures
        apply_all(m, es.map_values(delete_cmd())).next_id == m.next_id,
        m.inv() ==> apply_all(m, es.map_values(delete_cmd())).inv(),
    decreases es.len(),
{
    if es.len() > 0 {
        assert(es.map_values(delete_cmd()).drop_last() =~= es.drop_last().map_values(delete_cmd()));
        lemma_deletes_keep_next_id(m, es.drop_last());
        if m.inv() {
            crate::command::lemma_apply_keeps_inv(m, es.map_values(delete_cmd()));
        }
    }
}

/// Spawning saved entities in order gives the k-th the identity
/// `next_id + k`, with its resolved components.
proof fn lemma_spawns(d: WorldModel, sd: Seq<SavedEntity>, keys: Map<u64, Entity>, k: int)
    requires
        d.inv(),
        d.next_id + sd.len() < u64::MAX,
        0 <= k <= sd.len(),
    ensures
        ({
            let r = apply_all(d, sd.take(k).map_values(spawn_cmd(keys)));
            &&& r.next_id == d.next_id + k
            &&& forall|j: int|
                0 <= j < k ==> r.alive(#[trigger] spawned_entity(d.next_id, j)) && r.data[spawned_entity(d.next_id, j)] == map_holders(sd[j].components, restore_fn(keys))
            &&& forall|e: Entity| #[trigger] r.alive(e) && e.id < d.next_id ==> d.alive(e)
        }),
    decreases k,
{
    if k == 0 {
        assert(sd.take(0).map_values(spawn_cmd(keys)) =~= Seq::<Command>::empty());
    } else {
        lemma_spawns(d, sd, keys, k - 1);
        let cs = sd.take(k).map_values(spawn_cmd(keys));
        assert(cs.drop_last() =~= sd.take(k - 1).map_values(spawn_cmd(keys)));
        assert(cs.last() == spawn_cmd(keys)(sd[k - 1]));
        let prev = apply_all(d, sd.take(k - 1).map_values(spawn_cmd(keys)));
        let r = apply_all(d, cs);
        assert(r == prev.spawned(map_holders(sd[k - 1].components, restore_fn(keys))));
        assert(prev.next_id == d.next_id + k - 1);
        assert(spawned_entity(d.next_id, k - 1) == Entity { id: prev.next_id as u64 });
        assert forall|e: Entity| #[trigger] r.alive(e) && e.id < d.next_id implies d.alive(e) by {
            assert(prev.alive(e));
        }
        assert forall|j: int| 0 <= j < k implies r.alive(#[trigger] spawned_entity(d.next_id, j))
            && r.data[spawned_entity(d.next_id, j)] == map_holders(
            sd[j].components,
            restore_fn(keys),
        ) by {
            if j < k - 1 {
                assert(prev.alive(spawned_entity(d.next_id, j)));
                assert(spawned_entity(d.next_id, j) != spawned_entity(prev.next_id, 0));
            }
        }
    }
}

/// Whether every reference `c` holds is live and names an entity of `ps`.
pub open spec fn refs_within(c: Components, ps: Seq<Entity>) -> bool {
    all_holders(c, |h: EntityHolder| h is Live && ps.contains(h->Live_0))
}

/// A reference after a save and a load: the entity spawned for the key of
/// its referent.
pub open spec fn relinked(keys: Map<u64, Entity>) -> spec_fn(EntityHolder) -> EntityHolder {
    |h: EntityHolder| match h {
        EntityHolder::Live(y) => EntityHolder::Live(keys[y.id]),
        EntityHolder::Pending(k) => EntityHolder::Live(keys[k]),
    }
}

proof fn lemma_components_round_trip(c: Components, s: Components, keys: Map<u64, Entity>, ps: Seq<Entity>)
    requires
        refs_within(c, ps),
        equiv(s, map_holders(c, store_fn())),
        forall|i: int| 0 <= i < ps.len() ==> keys.contains_key((#[trigger] ps[i]).id),
    ensures
        all_holders(s, resolves_fn(keys)),
        equiv(map_holders(s, restore_fn(keys)), map_holders(c, relinked(keys))),
{
    let p = |h: EntityHolder| h is Live && ps.contains(h->Live_0);
    assert forall|h: EntityHolder| #[trigger] p(h) implies holder_resolves(stored_holder(h), keys)
        && restored_holder(stored_holder(h), keys) == relinked(keys)(h) by {
        let i = ps.index_of(h->Live_0);
        assert(keys.contains_key(ps[i].id));
    }
}

/// Save, then load: for every entity that was persisted, the entity
/// spawned for it carries the same components and tags, and each of its
/// references leads to the entity spawned for the referent it had when
/// saved, even though identities differ. This holds when the persisted
/// entities refer only to one another.
pub proof fn lemma_save_load_round_trip(m: WorldModel, sd: Seq<SavedEntity>, b: WorldModel)
    requires
        m.inv(),
        b.inv(),
        b.next_id + persisted(b).len() + sd.len() < u64::MAX,
        sd.len() == persisted(m).len(),
        forall|i: int|
            0 <= i < sd.len() ==> (#[trigger] sd[i]).key == persisted(m)[i].id && equiv(
                sd[i].components,
                map_holders(m.data[persisted(m)[i]], store_fn()),
            ),
        forall|i: int| 0 <= i < persisted(m).len() ==> refs_within(#[trigger] m.data[persisted(m)[i]], persisted(m)),
    ensures
        keys_unique(sd),
        refs_resolve(sd, key_map(sd, b.next_id)),
        ({
            let keys = key_map(sd, b.next_id);
            let r = apply_all(b, load_cmds(b, sd));
            &&& forall|i: int|
                0 <= i < sd.len() ==> keys[(#[trigger] persisted(m)[i]).id] == spawned_entity(b.next_id, i)
            &&& forall|i: int|
                0 <= i < sd.len() ==> r.alive(#[trigger] spawned_entity(b.next_id, i)) && equiv(
                    r.data[spawned_entity(b.next_id, i)],
                    map_holders(m.data[persisted(m)[i]], relinked(keys)),
                )
        }),
{
    let ps = persisted(m);
    let keys = key_map(sd, b.next_id);
    lemma_filter_no_dups(m.entities, persist_pred(m));
    assert forall|i: int, j: int| 0 <= i < j < sd.len() implies (#[trigger] sd[i]).key != (#[trigger] sd[j]).key by {
        assert(ps[i] != ps[j]);
    }
    lemma_key_map(sd, b.next_id);
    assert forall|i: int| 0 <= i < ps.len() implies keys.contains_key((#[trigger] ps[i]).id) by {
        assert(sd[i].key == ps[i].id);
    }
    assert forall|i: int| 0 <= i < sd.len() implies all_holders((#[trigger] sd[i]).components, resolves_fn(keys)) by {
        lemma_components_round_trip(m.data[ps[i]], sd[i].components, keys, ps);
    }
    let dels = persisted(b).map_values(delete_cmd());
    let spawns = sd.map_values(spawn_cmd(keys));
    crate::command::lemma_flush_in_order(b, dels, spawns);
    lemma_deletes_keep_next_id(b, persisted(b));
    let d = apply_all(b, dels);
    lemma_spawns(d, sd, keys, sd.len() as int);
    assert(sd.take(sd.len() as int) =~= sd);
    let r = apply_all(b, load_cmds(b, sd));
    assert forall|i: int| 0 <= i < sd.len() implies r.alive(#[trigger] spawned_entity(b.next_id, i))
        && equiv(r.data[spawned_entity(b.next_id, i)], map_holders(m.data[ps[i]], relinked(keys))) by {
        lemma_components_round_trip(m.data[ps[i]], sd[i].components, keys, ps);
    }
}

proof fn lemma_filter_no_dups(s: Seq<Entity>, p: spec_fn(Entity) -> bool)
    requires
        s.no_duplicates(),
    ensures
        s.filter(p).no_duplicates(),
    decreases s.len(),
{
    if s.len() > 0 {
        let q = s.drop_last();
        let x = s.last();
        assert(q.no_duplicates()) by {
            assert forall|i: int, j: int| 0 <= i < q.len() && 0 <= j < q.len() && i != j implies q[i] != q[j] by {
                assert(q[i] == s[i] && q[j] == s[j]);
            }
        }
        lemma_filter_no_dups(q, p);
        assert(s =~= q.push(x));
        q.lemma_filter_push(x, p);
        if p(x) {
            let f = q.filter(p);
            assert(!f.contains(x)) by {
                if f.contains(x) {
                    q.lemma_filter_contains_rev(p, x);
                    let j = q.index_of(x);
                    assert(s[j] == s[s.len() - 1]);
                }
            }
            let g = f.push(x);
            assert forall|i: int, j: int| 0 <= i < g.len() && 0 <= j < g.len() && i != j implies g[i] != g[j] by {
                if i < f.len() && j < f.len() {
                } else if i == f.len() {
                    assert(f.contains(g[j]) ==> true);
                    if g[i] == g[j] {
                        assert(f[j] == x);
                    }
                } else {
                    if g[i] == g[j] {
                        assert(f[i] == x);
                    }
                }
            }
        }
    }
}

} // verus!
