use vstd::prelude::*;
use crate::effects::{EffectSpawner, EffectType};
use crate::engine::GameLog;
use crate::map::EntityId;

verus! {

/// A request about an item: who acts (picks it up, drops it, takes it
/// off), which item, and the item's name.
pub struct ItemRequest {
    pub actor: EntityId,
    pub item: EntityId,
    pub item_name: String,
}

/// The texts of the messages.
pub open spec fn spec_texts(msgs: Seq<String>) -> Seq<Seq<char>> {
    msgs.map_values(|m: String| m@)
}

/// The messages told to the player about `reqs`: `prefix` and the item's
/// name, for each request the player makes, in order.
pub open spec fn spec_player_messages(prefix: Seq<char>, reqs: Seq<ItemRequest>, player: EntityId) -> Seq<
    Seq<char>,
>
    decreases reqs.len(),
{
    if reqs.len() == 0 {
        Seq::empty()
    } else if reqs.last().actor == player {
        spec_player_messages(prefix, reqs.drop_last(), player).push(prefix + reqs.last().item_name@)
    } else {
        spec_player_messages(prefix, reqs.drop_last(), player)
    }
}

/// Logs `prefix` and the item's name for each request the player makes.
fn log_player_requests(prefix: &str, reqs: &Vec<ItemRequest>, player: EntityId, log: &mut GameLog)
    ensures
        spec_texts(final(log).messages@) == spec_texts(old(log).messages@) + spec_player_messages(
            prefix@,
            reqs@,
            player,
        ),
{
    let ghost before = spec_texts(log.messages@);
    let mut i: usize = 0;
    while i < reqs.len()
        invariant
            i <= reqs@.len(),
            spec_texts(log.messages@) == before + spec_player_messages(prefix@, reqs@.take(i as int), player),
        decreases reqs.len() - i,
    {
        assert(reqs@.take(i + 1).drop_last() =~= reqs@.take(i as int));
        if reqs[i].actor == player {
            let mut s = String::from_str(prefix);
            s.append(reqs[i].item_name.as_str());
            let ghost old_msgs = log.messages@;
            log.messages.push(s);
            assert(spec_texts(log.messages@) =~= spec_texts(old_msgs).push(s@));
        }
        i = i + 1;
    }
    assert(reqs@.take(reqs.len() as int) =~= reqs@);
}

/// Each requested item with the entity acting on it.
pub open spec fn spec_item_owners(reqs: Seq<ItemRequest>) -> Seq<(EntityId, EntityId)> {
    reqs.map_values(|r: ItemRequest| (r.item, r.actor))
}

fn item_owners(reqs: &Vec<ItemRequest>) -> (r: Vec<(EntityId, EntityId)>)
    ensures
        r@ == spec_item_owners(reqs@),
{
    let mut r: Vec<(EntityId, EntityId)> = Vec::new();
    let mut i: usize = 0;
    while i < reqs.len()
        invariant
            i <= reqs@.len(),
            r@ == spec_item_owners(reqs@.take(i as int)),
        decreases reqs.len() - i,
    {
        r.push((reqs[i].item, reqs[i].actor));
        i = i + 1;
        assert(r@ =~= spec_item_owners(reqs@.take(i as int)));
    }
    assert(reqs@.take(reqs.len() as int) =~= reqs@);
    r
}

/// Picks up the requested items: each goes into the backpack of the
/// entity collecting it (returned as item and new owner, in order), and
/// the player is told of each item it picks up.
pub fn inventory(reqs: &Vec<ItemRequest>, player: EntityId, log: &mut GameLog) -> (r: Vec<(EntityId, EntityId)>)
    ensures
        r@ == spec_item_owners(reqs@),
        spec_texts(final(log).messages@) == spec_texts(old(log).messages@) + spec_player_messages(
            "You pick up the "@,
            reqs@,
            player,
        ),
{
    log_player_requests("You pick up the ", reqs, player, log);
    item_owners(reqs)
}

/// The drop effects of the requested drops, in order: each entity drops
/// its item. The player is told of each item it drops.
pub fn run_drop_item_system(reqs: &Vec<ItemRequest>, player: EntityId, log: &mut GameLog) -> (r: Vec<
    EffectSpawner,
>)
    ensures
        r@ == reqs@.map_values(
            |q: ItemRequest|
                EffectSpawner { creator: Some(q.actor), effect_type: EffectType::Drop { entity: q.item } },
        ),
        spec_texts(final(log).messages@) == spec_texts(old(log).messages@) + spec_player_messages(
            "You drop the "@,
            reqs@,
            player,
        ),
{
    log_player_requests("You drop the ", reqs, player, log);
    let mut r: Vec<EffectSpawner> = Vec::new();
    let mut i: usize = 0;
    while i < reqs.len()
        invariant
            i <= reqs@.len(),
            r@ == reqs@.take(i as int).map_values(
                |q: ItemRequest|
                    EffectSpawner {
                        creator: Some(q.actor),
                        effect_type: EffectType::Drop { entity: q.item },
                    },
            ),
        decreases reqs.len() - i,
    {
        r.push(
            EffectSpawner {
                creator: Some(reqs[i].actor),
                effect_type: EffectType::Drop { entity: reqs[i].item },
            },
        );
        i = i + 1;
        assert(r@ =~= reqs@.take(i as int).map_values(
            |q: ItemRequest|
                EffectSpawner {
                    creator: Some(q.actor),
                    effect_type: EffectType::Drop { entity: q.item },
                },
        ));
    }
    assert(reqs@.take(reqs.len() as int) =~= reqs@);
    r
}

/// Takes off the requested items: each goes from being worn back into the
/// backpack of the entity wearing it (returned as item and owner, in
/// order). The player is told of each item it takes off.
pub fn unequip_item(reqs: &Vec<ItemRequest>, player: EntityId, log: &mut GameLog) -> (r: Vec<(EntityId, EntityId)>)
    ensures
        r@ == spec_item_owners(reqs@),
        spec_texts(final(log).messages@) == spec_texts(old(log).messages@) + spec_player_messages(
            "You unequip the "@,
            reqs@,
            player,
        ),
{
    log_player_requests("You unequip the ", reqs, player, log);
    item_owners(reqs)
}

} // verus!
