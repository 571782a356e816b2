use vstd::prelude::*;
use crate::geometry::Point;
use crate::map::EntityId;
use crate::engine::{decimal_text, spec_decimal};

verus! {

/// Hit points and fighting strength of a creature.
#[derive(Clone, Copy, PartialEq, Eq, Structural, Debug)]
pub struct CombatStats {
    pub max_hp: i32,
    pub hp: i32,
    pub defense: i32,
    pub power: i32,
    pub regen_rate: i32,
}

pub open spec fn spec_min(a: int, b: int) -> int {
    if a <= b {
        a
    } else {
        b
    }
}

pub open spec fn spec_max(a: int, b: int) -> int {
    if a >= b {
        a
    } else {
        b
    }
}

/// Hit points after healing `amount`: raised by `amount`, but never above
/// the maximum.
pub open spec fn spec_healed_hp(stats: CombatStats, amount: int) -> int {
    spec_min(stats.hp + amount, stats.max_hp as int)
}

/// Heals a creature by `amount`, up to its maximum hit points.
pub fn heal(stats: &mut CombatStats, amount: i32)
    requires
        i32::MIN <= old(stats).hp + amount <= i32::MAX,
    ensures
        final(stats).hp == spec_healed_hp(*old(stats), amount as int),
        final(stats).max_hp == old(stats).max_hp,
        final(stats).defense == old(stats).defense,
        final(stats).power == old(stats).power,
        final(stats).regen_rate == old(stats).regen_rate,
{
    let raised = stats.hp + amount;
    stats.hp = if raised <= stats.max_hp {
        raised
    } else {
        stats.max_hp
    };
}

/// Takes `amount` hit points from a creature.
pub fn inflict_damage(stats: &mut CombatStats, amount: i32)
    requires
        i32::MIN <= old(stats).hp - amount <= i32::MAX,
    ensures
        final(stats).hp == old(stats).hp - amount,
        final(stats).max_hp == old(stats).max_hp,
        final(stats).defense == old(stats).defense,
        final(stats).power == old(stats).power,
        final(stats).regen_rate == old(stats).regen_rate,
{
    stats.hp = stats.hp - amount;
}

/// Waiting a turn: a creature that is not burning regains its regeneration
/// rate in hit points, up to its maximum; a burning one regains nothing.
pub fn skip_turn(stats: &mut CombatStats, on_fire: bool)
    requires
        i32::MIN <= old(stats).hp + old(stats).regen_rate <= i32::MAX,
    ensures
        on_fire ==> *final(stats) == *old(stats),
        !on_fire ==> final(stats).hp == spec_healed_hp(*old(stats), old(stats).regen_rate as int),
        final(stats).max_hp == old(stats).max_hp,
        final(stats).defense == old(stats).defense,
        final(stats).power == old(stats).power,
        final(stats).regen_rate == old(stats).regen_rate,
{
    if !on_fire {
        let amount = stats.regen_rate;
        heal(stats, amount);
    }
}

/// Healing never lifts a creature above its maximum hit points, and a
/// creature at or below its maximum never loses hit points by healing a
/// non-negative amount.
pub proof fn lemma_heal_bounded(stats: CombatStats, amount: int)
    requires
        amount >= 0,
        stats.hp <= stats.max_hp,
    ensures
        spec_healed_hp(stats, amount) <= stats.max_hp,
        spec_healed_hp(stats, amount) >= stats.hp,
{
}

/// An item that is equipped, its owner, and the bonus it gives.
#[derive(Clone, Copy, PartialEq, Eq, Structural, Debug)]
pub struct EquippedBonus {
    pub owner: EntityId,
    pub bonus: i32,
}

/// The total bonus of the items in `items` that `owner` has equipped.
pub open spec fn spec_bonus(items: Seq<EquippedBonus>, owner: EntityId) -> int
    decreases items.len(),
{
    if items.len() == 0 {
        0
    } else {
        spec_bonus(items.drop_last(), owner) + if items.last().owner == owner {
            items.last().bonus as int
        } else {
            0
        }
    }
}

/// Every running total of the bonuses fits an `i32`.
pub open spec fn bonus_sums_fit(items: Seq<EquippedBonus>, owner: EntityId) -> bool {
    forall|k: int|
        0 <= k <= items.len() ==> i32::MIN <= #[trigger] spec_bonus(items.take(k), owner)
            <= i32::MAX
}

/// The total bonus that `owner`'s equipped items give.
pub fn equipped_bonus(items: &Vec<EquippedBonus>, owner: EntityId) -> (r: i32)
    requires
        bonus_sums_fit(items@, owner),
    ensures
        r == spec_bonus(items@, owner),
{
    let mut total: i32 = 0;
    let mut i: usize = 0;
    assert(items@.take(0) =~= Seq::<EquippedBonus>::empty());
    while i < items.len()
        invariant
            i <= items.len(),
            bonus_sums_fit(items@, owner),
            total == spec_bonus(items@.take(i as int), owner),
        decreases items.len() - i,
    {
        assert(items@.take(i + 1).drop_last() =~= items@.take(i as int));
        assert(i32::MIN <= spec_bonus(items@.take(i + 1), owner) <= i32::MAX);
        if items[i].owner == owner {
            total = total + items[i].bonus;
        }
        i = i + 1;
    }
    assert(items@.take(items.len() as int) =~= items@);
    total
}

/// The damage of a melee hit: attack power (with bonus) minus defense
/// (with bonus), never below zero.
pub open spec fn spec_melee_damage(
    power: int,
    power_bonus: int,
    defense: int,
    defense_bonus: int,
) -> int {
    spec_max(0, (power + power_bonus) - (defense + defense_bonus))
}

/// The damage a hit deals.
pub fn melee_damage(power: i32, power_bonus: i32, defense: i32, defense_bonus: i32) -> (r: i32)
    requires
        i32::MIN <= power + power_bonus <= i32::MAX,
        i32::MIN <= defense + defense_bonus <= i32::MAX,
        i32::MIN <= (power + power_bonus) - (defense + defense_bonus) <= i32::MAX,
    ensures
        r == spec_melee_damage(power as int, power_bonus as int, defense as int, defense_bonus as int),
{
    let d = (power + power_bonus) - (defense + defense_bonus);
    if d > 0 {
        d
    } else {
        0
    }
}

/// How a melee attack turns out.
#[derive(Clone, Copy, PartialEq, Eq, Structural, Debug)]
pub enum MeleeOutcome {
    /// The attacker or the target is already dead: nothing happens.
    NoFight,
    /// The blow does no harm.
    Unhurt,
    /// The blow deals this much damage.
    Hit { damage: i32 },
}

pub open spec fn spec_melee(
    attacker: CombatStats,
    power_bonus: int,
    target: CombatStats,
    defense_bonus: int,
) -> MeleeOutcome {
    if attacker.hp <= 0 || target.hp <= 0 {
        MeleeOutcome::NoFight
    } else {
        let d = spec_melee_damage(
            attacker.power as int,
            power_bonus,
            target.defense as int,
            defense_bonus,
        );
        if d == 0 {
            MeleeOutcome::Unhurt
        } else {
            MeleeOutcome::Hit { damage: d as i32 }
        }
    }
}

/// The outcome of `attacker` striking `target`: live creatures fight, and
/// the blow deals the attack power over the defense.
pub fn melee_attack(
    attacker: &CombatStats,
    attacker_items: &Vec<EquippedBonus>,
    attacker_id: EntityId,
    target: &CombatStats,
    target_items: &Vec<EquippedBonus>,
    target_id: EntityId,
) -> (r: MeleeOutcome)
    requires
        bonus_sums_fit(attacker_items@, attacker_id),
        bonus_sums_fit(target_items@, target_id),
        i32::MIN <= attacker.power + spec_bonus(attacker_items@, attacker_id) <= i32::MAX,
        i32::MIN <= target.defense + spec_bonus(target_items@, target_id) <= i32::MAX,
        i32::MIN <= (attacker.power + spec_bonus(attacker_items@, attacker_id)) - (target.defense
            + spec_bonus(target_items@, target_id)) <= i32::MAX,
    ensures
        r == spec_melee(
            *attacker,
            spec_bonus(attacker_items@, attacker_id),
            *target,
            spec_bonus(target_items@, target_id),
        ),
{
    if attacker.hp <= 0 || target.hp <= 0 {
        return MeleeOutcome::NoFight;
    }
    let offensive = equipped_bonus(attacker_items, attacker_id);
    let defensive = equipped_bonus(target_items, target_id);
    let damage = melee_damage(attacker.power, offensive, target.defense, defensive);
    if damage == 0 {
        MeleeOutcome::Unhurt
    } else {
        MeleeOutcome::Hit { damage }
    }
}

/// A hit never heals: the damage of a blow is never negative, and a
/// stronger attacker never deals less.
pub proof fn lemma_melee_damage_monotone(p1: int, p2: int, pb: int, d: int, db: int)
    requires
        p1 <= p2,
    ensures
        0 <= spec_melee_damage(p1, pb, d, db) <= spec_melee_damage(p2, pb, d, db),
{
}

/// What the clean-up of the dead needs to know of a creature.
pub struct Combatant {
    pub id: EntityId,
    /// The creature's first cell.
    pub pos: Point,
    pub hp: i32,
    pub is_player: bool,
    /// The items the creature carries.
    pub items: Vec<EntityId>,
}

/// What dies this turn and what falls to the ground.
pub struct Deaths {
    /// The dead creatures, in order.
    pub dead: Vec<EntityId>,
    /// Each item a dead creature carried, and the cell it falls on.
    pub drops: Vec<(EntityId, Point)>,
    /// Whether the player died.
    pub player_died: bool,
}

/// The items of `c`, each dropped on its first cell.
pub open spec fn spec_drops_of(c: Combatant) -> Seq<(EntityId, Point)> {
    Seq::new(c.items@.len(), |i: int| (c.items@[i], c.pos))
}

/// The creatures (but the player) that are out of hit points, their
/// dropped items, and whether the player is out of hit points.
pub open spec fn spec_deaths(cs: Seq<Combatant>) -> (Seq<EntityId>, Seq<(EntityId, Point)>, bool)
    decreases cs.len(),
{
    if cs.len() == 0 {
        (seq![], seq![], false)
    } else {
        let r = spec_deaths(cs.drop_last());
        let c = cs.last();
        if c.hp > 0 {
            r
        } else if c.is_player {
            (r.0, r.1, true)
        } else {
            (r.0.push(c.id), r.1 + spec_drops_of(c), r.2)
        }
    }
}

/// The dead of this turn: creatures at zero hit points or below die and
/// drop what they carry where they stand; the player's death ends the
/// game instead.
pub fn run_cleanup_system(cs: &Vec<Combatant>) -> (r: Deaths)
    ensures
        r.dead@ == spec_deaths(cs@).0,
        r.drops@ == spec_deaths(cs@).1,
        r.player_died == spec_deaths(cs@).2,
{
    let mut dead: Vec<EntityId> = Vec::new();
    let mut drops: Vec<(EntityId, Point)> = Vec::new();
    let mut player_died = false;
    let mut i: usize = 0;
    while i < cs.len()
        invariant
            i <= cs.len(),
            dead@ == spec_deaths(cs@.take(i as int)).0,
            drops@ == spec_deaths(cs@.take(i as int)).1,
            player_died == spec_deaths(cs@.take(i as int)).2,
        decreases cs.len() - i,
    {
        let c = &cs[i];
        assert(cs@.take(i + 1).drop_last() =~= cs@.take(i as int));
        if c.hp <= 0 {
            if c.is_player {
                player_died = true;
            } else {
                let ghost before = drops@;
                let mut j: usize = 0;
                while j < c.items.len()
                    invariant
                        j <= c.items.len(),
                        drops@ == before + spec_drops_of(*c).take(j as int),
                    decreases c.items.len() - j,
                {
                    drops.push((c.items[j], c.pos));
                    assert(spec_drops_of(*c).take(j + 1) =~= spec_drops_of(*c).take(j as int).push(
                        (c.items@[j as int], c.pos),
                    ));
                    j = j + 1;
                }
                assert(spec_drops_of(*c).take(c.items.len() as int) =~= spec_drops_of(*c));
                dead.push(c.id);
            }
        }
        i = i + 1;
    }
    assert(cs@.take(cs.len() as int) =~= cs@);
    Deaths { dead, drops, player_died }
}

/// The log line of a melee blow by `attacker` on `target`: that the blow
/// does no harm, or how much it hurts; nothing when no fight happens.
pub fn melee_message(attacker: &str, target: &str, outcome: MeleeOutcome) -> (m: Option<String>)
    ensures
        match outcome {
            MeleeOutcome::NoFight => m is None,
            MeleeOutcome::Unhurt => m is Some && m->0@ == attacker@ + " is unable to hurt "@ + target@,
            MeleeOutcome::Hit { damage } => m is Some && m->0@ == attacker@ + " hits "@ + target@
                + " for "@ + spec_decimal(damage as int) + " hp"@,
        },
{
    match outcome {
        MeleeOutcome::NoFight => None,
        MeleeOutcome::Unhurt => {
            let mut s = String::from_str(attacker);
            s.append(" is unable to hurt ");
            s.append(target);
            Some(s)
        },
        MeleeOutcome::Hit { damage } => {
            let mut s = String::from_str(attacker);
            s.append(" hits ");
            s.append(target);
            s.append(" for ");
            let d = decimal_text(damage);
            s.append(d.as_str());
            s.append(" hp");
            Some(s)
        },
    }
}

/// The log line of a creature's death.
pub fn dead_message(name: &str) -> (m: String)
    ensures
        m@ == name@ + " is dead"@,
{
    let mut s = String::from_str(name);
    s.append(" is dead");
    s
}

} // verus!
