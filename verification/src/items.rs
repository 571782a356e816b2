use vstd::prelude::*;
use crate::effects::{EffectType, Targets};
use crate::geometry::Point;
use crate::map::{EntityId, TileMap};
use crate::backpack::spec_texts;
use crate::engine::{decimal_text, spec_decimal, GameLog};

use crate::map::contains_id;

verus! {

/// Where an item is worn.
#[derive(Clone, Copy, PartialEq, Eq, Structural, Debug)]
pub enum EquipmentSlot {
    RightHand,
    LeftHand,
}

/// What an item does when used.
#[derive(Clone, Copy, PartialEq, Eq, Structural, Debug)]
pub struct ItemProps {
    /// The radius of its blast, for area items.
    pub aoe: Option<i32>,
    /// The turns it sets things burning.
    pub fire: Option<i32>,
    /// The hit points it heals.
    pub heal: Option<i32>,
    /// The damage it deals.
    pub damage: Option<i32>,
    /// The turns it confuses.
    pub confusion: Option<i32>,
    /// Whether it is used up.
    pub consumable: bool,
    /// Where it is worn, for equipment.
    pub equip_slot: Option<EquipmentSlot>,
}

/// An item that someone worn: the item, its wearer, and where.
#[derive(Clone, Copy, PartialEq, Eq, Structural, Debug)]
pub struct Worn {
    pub item: EntityId,
    pub owner: EntityId,
    pub slot: EquipmentSlot,
}

/// What using an item does.
pub struct ItemUsePlan {
    /// Who is hit.
    pub targets: Vec<EntityId>,
    /// The cells the blast covers (area items).
    pub target_tiles: Vec<usize>,
    /// The effects to queue, in order.
    pub effects: Vec<EffectType>,
    /// Who is healed, by the item's healing.
    pub healed: Vec<EntityId>,
    /// Whether the item is used up and removed.
    pub consume: bool,
    /// Worn items to take off first, for equipment.
    pub unequip: Vec<EntityId>,
    /// Who puts the item on, for equipment.
    pub equip_to: Option<EntityId>,
}

/// The entities of `content` that can fight, in order.
pub open spec fn spec_keep_fighters(content: Seq<EntityId>, fighters: Seq<EntityId>) -> Seq<EntityId>
    decreases content.len(),
{
    if content.len() == 0 {
        seq![]
    } else {
        let rest = spec_keep_fighters(content.drop_last(), fighters);
        if fighters.contains(content.last()) {
            rest.push(content.last())
        } else {
            rest
        }
    }
}

/// Whether `p` lies inside the map's border.
pub open spec fn inside_border(map: &TileMap, p: Point) -> bool {
    p.x > 0 && p.x < map.width - 1 && p.y > 0 && p.y < map.height - 1
}

/// The cells of the blast that lie inside the map's border.
pub open spec fn spec_blast_cells(map: &TileMap, fov: Seq<Point>) -> Seq<Point>
    decreases fov.len(),
{
    if fov.len() == 0 {
        seq![]
    } else {
        let rest = spec_blast_cells(map, fov.drop_last());
        if inside_border(map, fov.last()) {
            rest.push(fov.last())
        } else {
            rest
        }
    }
}

/// The fighters on the cells, cell by cell.
pub open spec fn spec_fighters_on_cells(map: &TileMap, cells: Seq<Point>, fighters: Seq<EntityId>) -> Seq<EntityId>
    decreases cells.len(),
{
    if cells.len() == 0 {
        seq![]
    } else {
        spec_fighters_on_cells(map, cells.drop_last(), fighters) + spec_keep_fighters(
            map.tile_content@[map.spec_point_idx(cells.last())]@,
            fighters,
        )
    }
}

/// Who an item used on `target` hits: the player when it is used on no
/// cell; otherwise the fighters on the cell, or, for area items, the
/// fighters on every cell of the blast (`fov`: the cells seen from the
/// target within the radius) inside the map's border.
pub open spec fn spec_item_targets(
    map: &TileMap,
    target: Option<Point>,
    props: ItemProps,
    player: EntityId,
    fighters: Seq<EntityId>,
    fov: Seq<Point>,
) -> Seq<EntityId> {
    match target {
        None => seq![player],
        Some(t) => if props.aoe is Some {
            spec_fighters_on_cells(map, spec_blast_cells(map, fov), fighters)
        } else {
            spec_keep_fighters(map.tile_content@[map.spec_point_idx(t)]@, fighters)
        },
    }
}

/// The cells an area item's blast covers.
pub open spec fn spec_item_tiles(map: &TileMap, target: Option<Point>, props: ItemProps, fov: Seq<Point>) -> Seq<usize> {
    if target is Some && props.aoe is Some {
        let cells = spec_blast_cells(map, fov);
        Seq::new(cells.len(), |i: int| map.spec_point_idx(cells[i]) as usize)
    } else {
        seq![]
    }
}

/// One effect per target.
pub open spec fn spec_per_target(targets: Seq<EntityId>, f: spec_fn(EntityId) -> EffectType) -> Seq<EffectType> {
    Seq::new(targets.len(), |i: int| f(targets[i]))
}

/// Whether `e` sets the cells `tiles` burning for `turns` turns.
pub open spec fn is_fire_on(e: EffectType, turns: i32, tiles: Seq<usize>) -> bool {
    match e {
        EffectType::Fire { turns: t, target: Targets::Tiles { tiles: v } } => t == turns && v@ == tiles,
        _ => false,
    }
}

/// The effects of using the item after its fire: damage to each target,
/// then confusion of each target.
pub open spec fn spec_item_hits(props: ItemProps, targets: Seq<EntityId>) -> Seq<EffectType> {
    let dmg: Seq<EffectType> = match props.damage {
        Some(amount) => spec_per_target(targets, |t: EntityId| EffectType::Damage { amount, target: Targets::Single { target: t } }),
        None => seq![],
    };
    let conf: Seq<EffectType> = match props.confusion {
        Some(turns) => spec_per_target(targets, |t: EntityId| EffectType::Confusion { turns, target: Targets::Single { target: t } }),
        None => seq![],
    };
    dmg + conf
}

/// Whether the item did something: the last of its healing, damaging and
/// confusing powers decides (healing counts only on a target that can be
/// healed); an item with none of them counts as used.
pub open spec fn spec_item_used(props: ItemProps, targets: Seq<EntityId>, healed: Seq<EntityId>) -> bool {
    if props.confusion is Some {
        targets.len() > 0
    } else if props.damage is Some {
        targets.len() > 0
    } else if props.heal is Some {
        healed.len() > 0
    } else {
        true
    }
}

/// The worn items of `owner` in `slot`.
pub open spec fn spec_worn_in(worn: Seq<Worn>, owner: EntityId, slot: EquipmentSlot) -> Seq<EntityId>
    decreases worn.len(),
{
    if worn.len() == 0 {
        seq![]
    } else {
        let rest = spec_worn_in(worn.drop_last(), owner, slot);
        if worn.last().owner == owner && worn.last().slot == slot {
            rest.push(worn.last().item)
        } else {
            rest
        }
    }
}

fn keep_fighters(content: &Vec<EntityId>, fighters: &Vec<EntityId>, out: &mut Vec<EntityId>)
    ensures
        final(out)@ == old(out)@ + spec_keep_fighters(content@, fighters@),
{
    let mut i: usize = 0;
    while i < content.len()
        invariant
            i <= content@.len(),
            out@ == old(out)@ + spec_keep_fighters(content@.take(i as int), fighters@),
        decreases content.len() - i,
    {
        assert(content@.take(i + 1).drop_last() =~= content@.take(i as int));
        if contains_id(fighters, content[i]) {
            out.push(content[i]);
        }
        i = i + 1;
    }
    assert(content@.take(content.len() as int) =~= content@);
}

/// The targets and blast cells of an item used on `target`.
pub fn item_targets(
    map: &TileMap,
    target: Option<Point>,
    props: &ItemProps,
    player: EntityId,
    fighters: &Vec<EntityId>,
    fov: &Vec<Point>,
) -> (r: (Vec<EntityId>, Vec<usize>))
    requires
        map.wf(),
        target is Some ==> map.point_in_bounds(target->0),
    ensures
        r.0@ == spec_item_targets(map, target, *props, player, fighters@, fov@),
        r.1@ == spec_item_tiles(map, target, *props, fov@),
{
    let mut targets: Vec<EntityId> = Vec::new();
    let mut tiles: Vec<usize> = Vec::new();
    match target {
        None => {
            targets.push(player);
            assert(targets@ =~= seq![player]);
        },
        Some(t) => {
            if props.aoe.is_none() {
                let idx = map.point_idx(t);
                keep_fighters(&map.tile_content[idx], fighters, &mut targets);
                assert(targets@ =~= spec_keep_fighters(map.tile_content@[idx as int]@, fighters@));
            } else {
                let mut cells: Vec<Point> = Vec::new();
                let mut i: usize = 0;
                while i < fov.len()
                    invariant
                        map.wf(),
                        i <= fov@.len(),
                        cells@ == spec_blast_cells(map, fov@.take(i as int)),
                        targets@ == spec_fighters_on_cells(map, cells@, fighters@),
                        tiles@ == Seq::new(cells@.len(), |k: int| map.spec_point_idx(cells@[k]) as usize),
                        forall|k: int| 0 <= k < cells@.len() ==> inside_border(map, #[trigger] cells@[k]),
                    decreases fov.len() - i,
                {
                    assert(fov@.take(i + 1).drop_last() =~= fov@.take(i as int));
                    let p = fov[i];
                    if p.x > 0 && p.x < map.width - 1 && p.y > 0 && p.y < map.height - 1 {
                        let idx = map.point_idx(p);
                        let ghost before = targets@;
                        keep_fighters(&map.tile_content[idx], fighters, &mut targets);
                        cells.push(p);
                        tiles.push(idx);
                        assert(cells@.drop_last() =~= spec_blast_cells(map, fov@.take(i as int)));
                        assert(tiles@ =~= Seq::new(cells@.len(), |k: int| map.spec_point_idx(cells@[k]) as usize));
                    }
                    i = i + 1;
                }
                assert(fov@.take(fov.len() as int) =~= fov@);
            }
        },
    }
    (targets, tiles)
}

/// The kinds of per-target effects.
#[derive(Clone, Copy, PartialEq, Eq, Structural, Debug)]
enum HitKind {
    Damage,
    Confusion,
}

/// Appends one damage (or confusion) effect of `amount` per target.
fn push_per_target(effects: &mut Vec<EffectType>, targets: &Vec<EntityId>, kind: HitKind, amount: i32)
    ensures
        kind == HitKind::Damage ==> final(effects)@ == old(effects)@ + spec_per_target(targets@, |t: EntityId| EffectType::Damage { amount, target: Targets::Single { target: t } }),
        kind == HitKind::Confusion ==> final(effects)@ == old(effects)@ + spec_per_target(targets@, |t: EntityId| EffectType::Confusion { turns: amount, target: Targets::Single { target: t } }),
{
    let ghost f = if kind == HitKind::Damage {
        |t: EntityId| EffectType::Damage { amount, target: Targets::Single { target: t } }
    } else {
        |t: EntityId| EffectType::Confusion { turns: amount, target: Targets::Single { target: t } }
    };
    let mut i: usize = 0;
    while i < targets.len()
        invariant
            i <= targets@.len(),
            f == if kind == HitKind::Damage {
                |t: EntityId| EffectType::Damage { amount, target: Targets::Single { target: t } }
            } else {
                |t: EntityId| EffectType::Confusion { turns: amount, target: Targets::Single { target: t } }
            },
            effects@ == old(effects)@ + spec_per_target(targets@.take(i as int), f),
        decreases targets.len() - i,
    {
        let e = match kind {
            HitKind::Damage => EffectType::Damage { amount, target: Targets::Single { target: targets[i] } },
            HitKind::Confusion => EffectType::Confusion { turns: amount, target: Targets::Single { target: targets[i] } },
        };
        effects.push(e);
        assert(effects@ =~= old(effects)@ + spec_per_target(targets@.take(i + 1), f));
        i = i + 1;
    }
    assert(targets@.take(targets@.len() as int) =~= targets@);
}

/// The items `owner` wears in `slot`.
fn worn_in(worn: &Vec<Worn>, owner: EntityId, slot: EquipmentSlot) -> (r: Vec<EntityId>)
    ensures
        r@ == spec_worn_in(worn@, owner, slot),
{
    let mut r: Vec<EntityId> = Vec::new();
    let mut i: usize = 0;
    while i < worn.len()
        invariant
            i <= worn@.len(),
            r@ == spec_worn_in(worn@.take(i as int), owner, slot),
        decreases worn.len() - i,
    {
        assert(worn@.take(i + 1).drop_last() =~= worn@.take(i as int));
        let w = worn[i];
        if w.owner == owner && w.slot == slot {
            r.push(w.item);
        }
        i = i + 1;
    }
    assert(worn@.take(worn@.len() as int) =~= worn@);
    r
}

/// What using an item with powers `props` on `target` does: who it hits,
/// what burns, what it queues, whom it heals, whether it is used up, and
/// what its wearer takes off to put it on.
pub fn plan_item_use(
    map: &TileMap,
    target: Option<Point>,
    props: &ItemProps,
    player: EntityId,
    fighters: &Vec<EntityId>,
    fov: &Vec<Point>,
    worn: &Vec<Worn>,
) -> (plan: ItemUsePlan)
    requires
        map.wf(),
        target is Some ==> map.point_in_bounds(target->0),
        props.equip_slot is Some ==> spec_item_targets(map, target, *props, player, fighters@, fov@).len() > 0,
    ensures
        plan.targets@ == spec_item_targets(map, target, *props, player, fighters@, fov@),
        plan.target_tiles@ == spec_item_tiles(map, target, *props, fov@),
        props.fire is None ==> plan.effects@ == spec_item_hits(*props, plan.targets@),
        props.fire is Some ==> plan.effects@.len() > 0 && is_fire_on(plan.effects@[0], props.fire->0, plan.target_tiles@)
            && plan.effects@.drop_first() == spec_item_hits(*props, plan.targets@),
        plan.healed@ == if props.heal is Some {
            spec_keep_fighters(plan.targets@, fighters@)
        } else {
            seq![]
        },
        plan.consume == (props.consumable && spec_item_used(*props, plan.targets@, plan.healed@)),
        match props.equip_slot {
            Some(slot) => plan.equip_to == Some(plan.targets@[0]) && plan.unequip@ == spec_worn_in(worn@, plan.targets@[0], slot),
            None => plan.equip_to is None && plan.unequip@.len() == 0,
        },
{
    let (targets, target_tiles) = item_targets(map, target, props, player, fighters, fov);
    let mut effects: Vec<EffectType> = Vec::new();
    let mut used = true;
    if let Some(turns) = props.fire {
        let tiles = target_tiles.clone();
        assert(tiles@ =~= target_tiles@) by {
            assert(vstd::std_specs::vec::vec_clone_trigger(target_tiles, tiles));
        }
        effects.push(EffectType::Fire { turns, target: Targets::Tiles { tiles } });
        used = true;
    }
    let ghost after_fire = effects@;
    let mut healed: Vec<EntityId> = Vec::new();
    if props.heal.is_some() {
        keep_fighters(&targets, fighters, &mut healed);
        assert(healed@ =~= spec_keep_fighters(targets@, fighters@));
        used = healed.len() > 0;
    }
    if let Some(amount) = props.damage {
        push_per_target(&mut effects, &targets, HitKind::Damage, amount);
        used = targets.len() > 0;
    }
    if let Some(turns) = props.confusion {
        push_per_target(&mut effects, &targets, HitKind::Confusion, turns);
        used = targets.len() > 0;
    }
    let consume = props.consumable && used;
    let mut unequip: Vec<EntityId> = Vec::new();
    let mut equip_to: Option<EntityId> = None;
    if let Some(slot) = props.equip_slot {
        let wearer = targets[0];
        unequip = worn_in(worn, wearer, slot);
        equip_to = Some(wearer);
    }
    proof {
        if props.fire is Some {
            assert(after_fire.len() == 1);
            assert(effects@.drop_first() =~= spec_item_hits(*props, targets@));
        } else {
            assert(effects@ =~= spec_item_hits(*props, targets@));
        }
    }
    ItemUsePlan { targets, target_tiles, effects, healed, consume, unequip, equip_to }
}

/// What the player is told on using item `item` with powers `props`:
/// once per healed target the healing, then per target the damage, then
/// per target the confusion; other users' item use is not told.
pub open spec fn spec_use_messages(
    props: ItemProps,
    by_player: bool,
    item: Seq<char>,
    healed: nat,
    targets: Seq<Seq<char>>,
) -> Seq<Seq<char>> {
    if !by_player {
        Seq::empty()
    } else {
        let heal: Seq<Seq<char>> = match props.heal {
            Some(h) => Seq::new(
                healed,
                |i: int| "You use the "@ + item + ", healing "@ + spec_decimal(h as int) + " hp"@,
            ),
            None => Seq::empty(),
        };
        let dmg: Seq<Seq<char>> = match props.damage {
            Some(d) => targets.map_values(
                |t: Seq<char>| "You use "@ + item + " on "@ + t + ", dealing "@ + spec_decimal(d as int) + " hp"@,
            ),
            None => Seq::empty(),
        };
        let conf: Seq<Seq<char>> = match props.confusion {
            Some(_) => targets.map_values(|t: Seq<char>| "You use "@ + item + " on "@ + t + ", confusing them"@),
            None => Seq::empty(),
        };
        heal + dmg + conf
    }
}

/// Tells the player of its use of the item `item_name` with powers
/// `props`, which healed `healed` targets and hit the targets named
/// `target_names`.
pub fn log_item_use(
    log: &mut GameLog,
    props: &ItemProps,
    by_player: bool,
    item_name: &str,
    healed: usize,
    target_names: &Vec<String>,
)
    ensures
        spec_texts(final(log).messages@) == spec_texts(old(log).messages@) + spec_use_messages(
            *props,
            by_player,
            item_name@,
            healed as nat,
            spec_texts(target_names@),
        ),
{
    let ghost before = spec_texts(log.messages@);
    let ghost names = spec_texts(target_names@);
    if !by_player {
        assert(before + Seq::<Seq<char>>::empty() =~= before);
        return;
    }
    let ghost heal: Seq<Seq<char>> = match props.heal {
        Some(h) => Seq::new(
            healed as nat,
            |i: int| "You use the "@ + item_name@ + ", healing "@ + spec_decimal(h as int) + " hp"@,
        ),
        None => Seq::empty(),
    };
    if let Some(h) = props.heal {
        let amount = decimal_text(h);
        let mut i: usize = 0;
        while i < healed
            invariant
                i <= healed,
                amount@ == spec_decimal(h as int),
                props.heal == Some(h),
                heal == Seq::new(
                    healed as nat,
                    |i: int| "You use the "@ + item_name@ + ", healing "@ + spec_decimal(h as int) + " hp"@,
                ),
                spec_texts(log.messages@) == before + heal.take(i as int),
            decreases healed - i,
        {
            let mut m = String::from_str("You use the ");
            m.append(item_name);
            m.append(", healing ");
            m.append(amount.as_str());
            m.append(" hp");
            let ghost prev = log.messages@;
            log.messages.push(m);
            i = i + 1;
            assert(spec_texts(log.messages@) =~= spec_texts(prev).push(m@));
            assert(heal.take(i as int) =~= heal.take(i - 1).push(m@));
        }
        assert(heal.take(healed as int) =~= heal);
    } else {
        assert(before + heal =~= before);
    }
    let ghost after_heal = spec_texts(log.messages@);
    let ghost dmg: Seq<Seq<char>> = match props.damage {
        Some(d) => names.map_values(
            |t: Seq<char>| "You use "@ + item_name@ + " on "@ + t + ", dealing "@ + spec_decimal(d as int) + " hp"@,
        ),
        None => Seq::empty(),
    };
    if let Some(d) = props.damage {
        let amount = decimal_text(d);
        let mut i: usize = 0;
        while i < target_names.len()
            invariant
                i <= target_names@.len(),
                names == spec_texts(target_names@),
                amount@ == spec_decimal(d as int),
                props.damage == Some(d),
                dmg == names.map_values(
                    |t: Seq<char>| "You use "@ + item_name@ + " on "@ + t + ", dealing "@ + spec_decimal(d as int) + " hp"@,
                ),
                spec_texts(log.messages@) == after_heal + dmg.take(i as int),
            decreases target_names.len() - i,
        {
            let mut m = String::from_str("You use ");
            m.append(item_name);
            m.append(" on ");
            m.append(target_names[i].as_str());
            m.append(", dealing ");
            m.append(amount.as_str());
            m.append(" hp");
            let ghost prev = log.messages@;
            log.messages.push(m);
            i = i + 1;
            assert(spec_texts(log.messages@) =~= spec_texts(prev).push(m@));
            assert(dmg.take(i as int) =~= dmg.take(i - 1).push(m@));
        }
        assert(dmg.take(target_names.len() as int) =~= dmg);
    } else {
        assert(after_heal + dmg =~= after_heal);
    }
    let ghost after_dmg = spec_texts(log.messages@);
    let ghost conf: Seq<Seq<char>> = match props.confusion {
        Some(_) => names.map_values(|t: Seq<char>| "You use "@ + item_name@ + " on "@ + t + ", confusing them"@),
        None => Seq::empty(),
    };
    if props.confusion.is_some() {
        let mut i: usize = 0;
        while i < target_names.len()
            invariant
                i <= target_names@.len(),
                names == spec_texts(target_names@),
                props.confusion is Some,
                conf == names.map_values(|t: Seq<char>| "You use "@ + item_name@ + " on "@ + t + ", confusing them"@),
                spec_texts(log.messages@) == after_dmg + conf.take(i as int),
            decreases target_names.len() - i,
        {
            let mut m = String::from_str("You use ");
            m.append(item_name);
            m.append(" on ");
            m.append(target_names[i].as_str());
            m.append(", confusing them");
            let ghost prev = log.messages@;
            log.messages.push(m);
            i = i + 1;
            assert(spec_texts(log.messages@) =~= spec_texts(prev).push(m@));
            assert(conf.take(i as int) =~= conf.take(i - 1).push(m@));
        }
        assert(conf.take(target_names.len() as int) =~= conf);
    } else {
        assert(after_dmg + conf =~= after_dmg);
    }
    assert(before + heal + dmg + conf =~= before + (heal + dmg + conf));
}

/// Tells the player of the items it takes off (`unequipped`, by name) and
/// the item it puts on, when the wearer is the player.
pub fn log_equip(log: &mut GameLog, for_player: bool, unequipped: &Vec<String>, equipped: &str)
    ensures
        spec_texts(final(log).messages@) == spec_texts(old(log).messages@) + if for_player {
            spec_texts(unequipped@).map_values(|n: Seq<char>| "You unequip your "@ + n).push(
                "You equip your "@ + equipped@,
            )
        } else {
            Seq::empty()
        },
{
    let ghost before = spec_texts(log.messages@);
    if !for_player {
        assert(before + Seq::<Seq<char>>::empty() =~= before);
        return;
    }
    let ghost off = spec_texts(unequipped@).map_values(|n: Seq<char>| "You unequip your "@ + n);
    let mut i: usize = 0;
    while i < unequipped.len()
        invariant
            i <= unequipped@.len(),
            off == spec_texts(unequipped@).map_values(|n: Seq<char>| "You unequip your "@ + n),
            spec_texts(log.messages@) == before + off.take(i as int),
        decreases unequipped.len() - i,
    {
        let mut m = String::from_str("You unequip your ");
        m.append(unequipped[i].as_str());
        let ghost prev = log.messages@;
        log.messages.push(m);
        i = i + 1;
        assert(spec_texts(log.messages@) =~= spec_texts(prev).push(m@));
        assert(off.take(i as int) =~= off.take(i - 1).push(m@));
    }
    assert(off.take(unequipped.len() as int) =~= off);
    let mut m = String::from_str("You equip your ");
    m.append(equipped);
    let ghost prev = log.messages@;
    log.messages.push(m);
    assert(spec_texts(log.messages@) =~= spec_texts(prev).push(m@));
    assert(before + off.push(m@) =~= (before + off).push(m@));
}

/// No owner wears two items in one slot.
pub open spec fn single_per_slot(worn: Seq<Worn>) -> bool {
    forall|i: int, j: int|
        0 <= i < j < worn.len() ==> !((#[trigger] worn[i]).owner == (#[trigger] worn[j]).owner && worn[i].slot
            == worn[j].slot)
}

/// What stays worn when the items `off` are taken off, in order.
pub open spec fn spec_take_off(worn: Seq<Worn>, off: Seq<EntityId>) -> Seq<Worn>
    decreases worn.len(),
{
    if worn.len() == 0 {
        seq![]
    } else {
        let rest = spec_take_off(worn.drop_last(), off);
        if off.contains(worn.last().item) {
            rest
        } else {
            rest.push(worn.last())
        }
    }
}

/// What is worn after `owner` puts on `item` in `slot`: whatever that
/// owner wore in that slot comes off, and the item goes on.
pub open spec fn spec_wear(worn: Seq<Worn>, item: EntityId, owner: EntityId, slot: EquipmentSlot) -> Seq<Worn> {
    spec_take_off(worn, spec_worn_in(worn, owner, slot)).push(Worn { item, owner, slot })
}

proof fn lemma_worn_in_lists(worn: Seq<Worn>, owner: EntityId, slot: EquipmentSlot, k: int)
    requires
        0 <= k < worn.len(),
        worn[k].owner == owner,
        worn[k].slot == slot,
    ensures
        spec_worn_in(worn, owner, slot).contains(worn[k].item),
    decreases worn.len(),
{
    let rest = spec_worn_in(worn.drop_last(), owner, slot);
    if k == worn.len() - 1 {
        assert(spec_worn_in(worn, owner, slot) == rest.push(worn.last().item));
        assert(spec_worn_in(worn, owner, slot)[rest.len() as int] == worn[k].item);
    } else {
        assert(worn.drop_last()[k] == worn[k]);
        lemma_worn_in_lists(worn.drop_last(), owner, slot, k);
        let i = choose|i: int| 0 <= i < rest.len() && rest[i] == worn[k].item;
        if worn.last().owner == owner && worn.last().slot == slot {
            assert(spec_worn_in(worn, owner, slot)[i] == worn[k].item);
        }
    }
}

proof fn lemma_worn_in_from(worn: Seq<Worn>, owner: EntityId, slot: EquipmentSlot, x: EntityId)
    requires
        spec_worn_in(worn, owner, slot).contains(x),
    ensures
        exists|m: int| 0 <= m < worn.len() && (#[trigger] worn[m]).item == x && worn[m].owner == owner && worn[m].slot == slot,
    decreases worn.len(),
{
    let rest = spec_worn_in(worn.drop_last(), owner, slot);
    if !(worn.last().owner == owner && worn.last().slot == slot && worn.last().item == x) {
        if worn.last().owner == owner && worn.last().slot == slot {
            let i = choose|i: int| 0 <= i < rest.len() + 1 && rest.push(worn.last().item)[i] == x;
            assert(rest[i] == x);
        }
        lemma_worn_in_from(worn.drop_last(), owner, slot, x);
        let m = choose|m: int|
            0 <= m < worn.drop_last().len() && (#[trigger] worn.drop_last()[m]).item == x && worn.drop_last()[m].owner
                == owner && worn.drop_last()[m].slot == slot;
        assert(worn[m] == worn.drop_last()[m]);
    } else {
        assert(worn[worn.len() - 1] == worn.last());
    }
}

proof fn lemma_take_off(worn: Seq<Worn>, off: Seq<EntityId>)
    ensures
        forall|i: int|
            0 <= i < spec_take_off(worn, off).len() ==> worn.contains(#[trigger] spec_take_off(worn, off)[i])
                && !off.contains(spec_take_off(worn, off)[i].item),
        forall|k: int| 0 <= k < worn.len() && !off.contains((#[trigger] worn[k]).item) ==> spec_take_off(worn, off).contains(worn[k]),
        single_per_slot(worn) ==> single_per_slot(spec_take_off(worn, off)),
    decreases worn.len(),
{
    if worn.len() > 0 {
        let prev = worn.drop_last();
        lemma_take_off(prev, off);
        let rest = spec_take_off(prev, off);
        let cur = spec_take_off(worn, off);
        assert forall|i: int| 0 <= i < cur.len() implies worn.contains(#[trigger] cur[i]) && !off.contains(cur[i].item) by {
            if i < rest.len() {
                assert(cur[i] == rest[i]);
                let j = choose|j: int| 0 <= j < prev.len() && prev[j] == rest[i];
                assert(worn[j] == prev[j]);
            } else {
                assert(cur[i] == worn[worn.len() - 1]);
            }
        }
        assert forall|k: int| 0 <= k < worn.len() && !off.contains((#[trigger] worn[k]).item) implies cur.contains(worn[k]) by {
            if k < worn.len() - 1 {
                assert(prev[k] == worn[k]);
                let i = choose|i: int| 0 <= i < rest.len() && rest[i] == prev[k];
                assert(cur[i] == rest[i]);
            } else {
                assert(cur[cur.len() - 1] == worn[k]);
            }
        }
        if single_per_slot(worn) {
            assert(single_per_slot(prev)) by {
                assert forall|i: int, j: int| 0 <= i < j < prev.len() implies !((#[trigger] prev[i]).owner
                    == (#[trigger] prev[j]).owner && prev[i].slot == prev[j].slot) by {
                    assert(prev[i] == worn[i] && prev[j] == worn[j]);
                }
            }
            if !off.contains(worn.last().item) {
                assert forall|i: int, j: int| 0 <= i < j < cur.len() implies !((#[trigger] cur[i]).owner
                    == (#[trigger] cur[j]).owner && cur[i].slot == cur[j].slot) by {
                    assert(cur[i] == rest[i]);
                    if j < rest.len() {
                        assert(cur[j] == rest[j]);
                    } else {
                        let a = choose|a: int| 0 <= a < prev.len() && prev[a] == rest[i];
                        assert(worn[a] == prev[a]);
                        assert(cur[j] == worn[worn.len() - 1]);
                    }
                }
            }
        }
    }
}

proof fn lemma_wear_keeps_one_per_slot(worn: Seq<Worn>, item: EntityId, owner: EntityId, slot: EquipmentSlot)
    requires
        single_per_slot(worn),
        forall|i: int, j: int| 0 <= i < j < worn.len() ==> (#[trigger] worn[i]).item != (#[trigger] worn[j]).item,
    ensures
        single_per_slot(spec_wear(worn, item, owner, slot)),
        spec_wear(worn, item, owner, slot).contains(Worn { item, owner, slot }),
        forall|i: int|
            0 <= i < spec_wear(worn, item, owner, slot).len() && (#[trigger] spec_wear(worn, item, owner, slot)[i]).owner
                == owner && spec_wear(worn, item, owner, slot)[i].slot == slot ==> spec_wear(worn, item, owner, slot)[i].item
                == item,
        forall|k: int|
            0 <= k < worn.len() && !((#[trigger] worn[k]).owner == owner && worn[k].slot == slot) && worn[k].item
                != item ==> spec_wear(worn, item, owner, slot).contains(worn[k]),
{
    let off = spec_worn_in(worn, owner, slot);
    let kept = spec_take_off(worn, off);
    let w = spec_wear(worn, item, owner, slot);
    lemma_take_off(worn, off);
    assert(w[kept.len() as int] == Worn { item, owner, slot });
    assert forall|i: int| 0 <= i < kept.len() implies !((#[trigger] kept[i]).owner == owner && kept[i].slot == slot) by {
        let k = choose|k: int| 0 <= k < worn.len() && worn[k] == kept[i];
        if worn[k].owner == owner && worn[k].slot == slot {
            lemma_worn_in_lists(worn, owner, slot, k);
        }
    }
    assert forall|i: int, j: int| 0 <= i < j < w.len() implies !((#[trigger] w[i]).owner == (#[trigger] w[j]).owner
        && w[i].slot == w[j].slot) by {
        assert(w[i] == kept[i]);
        if j < kept.len() {
            assert(w[j] == kept[j]);
        }
    }
    assert forall|i: int| 0 <= i < w.len() && (#[trigger] w[i]).owner == owner && w[i].slot == slot implies w[i].item
        == item by {
        if i < kept.len() {
            assert(w[i] == kept[i]);
        }
    }
    assert forall|k: int|
        0 <= k < worn.len() && !((#[trigger] worn[k]).owner == owner && worn[k].slot == slot) && worn[k].item != item
            implies w.contains(worn[k]) by {
        if !off.contains(worn[k].item) {
            let i = choose|i: int| 0 <= i < kept.len() && kept[i] == worn[k];
            assert(w[i] == kept[i]);
        } else {
            lemma_worn_in_from(worn, owner, slot, worn[k].item);
        }
    }
}

/// What is worn once the plan of using `item` (worn in `slot`, for
/// equipment) is carried out: the items the plan takes off go back to the
/// backpack, and the item goes on whoever the plan puts it on.
pub open spec fn spec_worn_after(worn: Seq<Worn>, item: EntityId, slot: EquipmentSlot, plan: ItemUsePlan) -> Seq<Worn> {
    match plan.equip_to {
        Some(owner) => spec_take_off(worn, plan.unequip@).push(Worn { item, owner, slot }),
        None => spec_take_off(worn, plan.unequip@),
    }
}

/// Using equipment keeps at most one item worn per wearer and slot: when
/// the plan of `plan_item_use` for an item of `slot` is carried out, the
/// item is worn by its wearer in that slot and is the only item worn there,
/// every other item that was worn there is off (back in the backpack), and
/// everything else worn stays on (each item being worn at most once).
pub proof fn lemma_equip_keeps_one_per_slot(
    worn: Seq<Worn>,
    item: EntityId,
    slot: EquipmentSlot,
    owner: EntityId,
    plan: ItemUsePlan,
)
    requires
        single_per_slot(worn),
        forall|i: int, j: int| 0 <= i < j < worn.len() ==> (#[trigger] worn[i]).item != (#[trigger] worn[j]).item,
        plan.equip_to == Some(owner),
        plan.unequip@ == spec_worn_in(worn, owner, slot),
    ensures
        single_per_slot(spec_worn_after(worn, item, slot, plan)),
        spec_worn_after(worn, item, slot, plan).contains(Worn { item, owner, slot }),
        forall|i: int|
            0 <= i < spec_worn_after(worn, item, slot, plan).len() && (#[trigger] spec_worn_after(
                worn,
                item,
                slot,
                plan,
            )[i]).owner == owner && spec_worn_after(worn, item, slot, plan)[i].slot == slot
                ==> spec_worn_after(worn, item, slot, plan)[i].item == item,
        forall|i: int|
            0 <= i < spec_worn_after(worn, item, slot, plan).len() && plan.unequip@.contains(
                (#[trigger] spec_worn_after(worn, item, slot, plan)[i]).item,
            ) ==> spec_worn_after(worn, item, slot, plan)[i].item == item,
        forall|k: int|
            0 <= k < worn.len() && !((#[trigger] worn[k]).owner == owner && worn[k].slot == slot) && worn[k].item
                != item ==> spec_worn_after(worn, item, slot, plan).contains(worn[k]),
{
    let after = spec_worn_after(worn, item, slot, plan);
    assert(after == spec_wear(worn, item, owner, slot));
    lemma_wear_keeps_one_per_slot(worn, item, owner, slot);
    lemma_take_off(worn, plan.unequip@);
    let kept = spec_take_off(worn, plan.unequip@);
    assert forall|i: int| 0 <= i < after.len() && plan.unequip@.contains((#[trigger] after[i]).item) implies after[i].item
        == item by {
        if i < kept.len() {
            assert(after[i] == kept[i]);
        }
    }
}

proof fn lemma_keep_fighters_contains(content: Seq<EntityId>, fighters: Seq<EntityId>, e: EntityId)
    ensures
        spec_keep_fighters(content, fighters).contains(e) <==> (content.contains(e) && fighters.contains(e)),
    decreases content.len(),
{
    if content.len() > 0 {
        let rest = spec_keep_fighters(content.drop_last(), fighters);
        lemma_keep_fighters_contains(content.drop_last(), fighters, e);
        let cur = spec_keep_fighters(content, fighters);
        if cur.contains(e) {
            let i = choose|i: int| 0 <= i < cur.len() && cur[i] == e;
            if i < rest.len() {
                assert(rest[i] == e);
                let j = choose|j: int| 0 <= j < content.drop_last().len() && content.drop_last()[j] == e;
                assert(content[j] == e);
            } else {
                assert(content[content.len() - 1] == e);
            }
        }
        if content.contains(e) && fighters.contains(e) {
            let j = choose|j: int| 0 <= j < content.len() && content[j] == e;
            if j < content.len() - 1 {
                assert(content.drop_last()[j] == e);
                let i = choose|i: int| 0 <= i < rest.len() && rest[i] == e;
                if fighters.contains(content.last()) {
                    assert(cur[i] == e);
                } else {
                    assert(cur[i] == e);
                }
            } else {
                assert(cur[cur.len() - 1] == e);
            }
        }
    }
}

proof fn lemma_blast_cells_contains(map: &TileMap, fov: Seq<Point>, p: Point)
    ensures
        spec_blast_cells(map, fov).contains(p) <==> (fov.contains(p) && inside_border(map, p)),
    decreases fov.len(),
{
    if fov.len() > 0 {
        let rest = spec_blast_cells(map, fov.drop_last());
        lemma_blast_cells_contains(map, fov.drop_last(), p);
        let cur = spec_blast_cells(map, fov);
        if cur.contains(p) {
            let i = choose|i: int| 0 <= i < cur.len() && cur[i] == p;
            if i < rest.len() {
                assert(rest[i] == p);
                let j = choose|j: int| 0 <= j < fov.drop_last().len() && fov.drop_last()[j] == p;
                assert(fov[j] == p);
            } else {
                assert(fov[fov.len() - 1] == p);
            }
        }
        if fov.contains(p) && inside_border(map, p) {
            let j = choose|j: int| 0 <= j < fov.len() && fov[j] == p;
            if j < fov.len() - 1 {
                assert(fov.drop_last()[j] == p);
                let i = choose|i: int| 0 <= i < rest.len() && rest[i] == p;
                assert(cur[i] == p);
            } else {
                assert(cur[cur.len() - 1] == p);
            }
        }
    }
}

proof fn lemma_fighters_on_cells_contains(map: &TileMap, cells: Seq<Point>, fighters: Seq<EntityId>, e: EntityId)
    ensures
        spec_fighters_on_cells(map, cells, fighters).contains(e) <==> (fighters.contains(e) && exists|c: Point|
            cells.contains(c) && #[trigger] map.tile_content@[map.spec_point_idx(c)]@.contains(e)),
    decreases cells.len(),
{
    if cells.len() > 0 {
        let rest = spec_fighters_on_cells(map, cells.drop_last(), fighters);
        let last = spec_keep_fighters(map.tile_content@[map.spec_point_idx(cells.last())]@, fighters);
        lemma_fighters_on_cells_contains(map, cells.drop_last(), fighters, e);
        lemma_keep_fighters_contains(map.tile_content@[map.spec_point_idx(cells.last())]@, fighters, e);
        let cur = spec_fighters_on_cells(map, cells, fighters);
        assert(cur == rest + last);
        if cur.contains(e) {
            let i = choose|i: int| 0 <= i < cur.len() && cur[i] == e;
            if i < rest.len() {
                assert(rest[i] == e);
                let c = choose|c: Point|
                    cells.drop_last().contains(c) && #[trigger] map.tile_content@[map.spec_point_idx(c)]@.contains(e);
                let j = choose|j: int| 0 <= j < cells.drop_last().len() && cells.drop_last()[j] == c;
                assert(cells[j] == c);
            } else {
                assert(last[i - rest.len()] == e);
                assert(cells[cells.len() - 1] == cells.last());
                assert(cells.contains(cells.last()));
            }
        }
        if fighters.contains(e) && exists|c: Point|
            cells.contains(c) && #[trigger] map.tile_content@[map.spec_point_idx(c)]@.contains(e) {
            let c = choose|c: Point| cells.contains(c) && #[trigger] map.tile_content@[map.spec_point_idx(c)]@.contains(e);
            let j = choose|j: int| 0 <= j < cells.len() && cells[j] == c;
            if j < cells.len() - 1 {
                assert(cells.drop_last()[j] == c);
                assert(cells.drop_last().contains(c));
                let i = choose|i: int| 0 <= i < rest.len() && rest[i] == e;
                assert(cur[i] == e);
            } else {
                let i = choose|i: int| 0 <= i < last.len() && last[i] == e;
                assert(cur[rest.len() + i] == e);
            }
        }
    }
}

/// An area item hits every fighter standing on any cell of its blast
/// (`fov`) inside the map's border, and no one else: not only those on the
/// cell it is aimed at.
pub proof fn lemma_area_item_hits_blast(
    map: &TileMap,
    t: Point,
    props: ItemProps,
    player: EntityId,
    fighters: Seq<EntityId>,
    fov: Seq<Point>,
    e: EntityId,
)
    requires
        props.aoe is Some,
    ensures
        spec_item_targets(map, Some(t), props, player, fighters, fov).contains(e) <==> (fighters.contains(e)
            && exists|p: Point|
            fov.contains(p) && 0 < p.x < map.width - 1 && 0 < p.y < map.height - 1
                && #[trigger] map.tile_content@[map.spec_xy_idx(p.x as int, p.y as int)]@.contains(e)),
{
    let cells = spec_blast_cells(map, fov);
    lemma_fighters_on_cells_contains(map, cells, fighters, e);
    if exists|c: Point| cells.contains(c) && #[trigger] map.tile_content@[map.spec_point_idx(c)]@.contains(e) {
        let c = choose|c: Point| cells.contains(c) && #[trigger] map.tile_content@[map.spec_point_idx(c)]@.contains(e);
        lemma_blast_cells_contains(map, fov, c);
        assert(map.tile_content@[map.spec_xy_idx(c.x as int, c.y as int)]@.contains(e));
    }
    if exists|p: Point|
        fov.contains(p) && 0 < p.x < map.width - 1 && 0 < p.y < map.height - 1
            && #[trigger] map.tile_content@[map.spec_xy_idx(p.x as int, p.y as int)]@.contains(e) {
        let p = choose|p: Point|
            fov.contains(p) && 0 < p.x < map.width - 1 && 0 < p.y < map.height - 1
                && #[trigger] map.tile_content@[map.spec_xy_idx(p.x as int, p.y as int)]@.contains(e);
        lemma_blast_cells_contains(map, fov, p);
        assert(map.tile_content@[map.spec_point_idx(p)]@.contains(e));
    }
}

/// An item aimed at a cell without a blast hits exactly the fighters
/// standing on that cell; an item used on no cell is used on the player.
pub proof fn lemma_single_item_hits_cell(
    map: &TileMap,
    target: Option<Point>,
    props: ItemProps,
    player: EntityId,
    fighters: Seq<EntityId>,
    fov: Seq<Point>,
    e: EntityId,
)
    ensures
        target is None ==> spec_item_targets(map, target, props, player, fighters, fov) == seq![player],
        target is Some && props.aoe is None ==> (spec_item_targets(map, target, props, player, fighters, fov).contains(e)
            <==> (fighters.contains(e) && map.tile_content@[map.spec_xy_idx(
            target->0.x as int,
            target->0.y as int,
        )]@.contains(e))),
{
    if let Some(t) = target {
        lemma_keep_fighters_contains(map.tile_content@[map.spec_point_idx(t)]@, fighters, e);
    }
}

} // verus!
